//! Properties of the store that span several calls, proved over the
//! transitions that the operations' contracts state.
use vstd::prelude::*;

use crate::calendar::civil_date;
use crate::pallet::{check_contato, PalletView};
use crate::types::{AccountId, Categoria, ContatoView, Error, Prioridade};

verus! {

/// The fields handed to one `criar_contato` call, text already as bytes.
pub ghost struct ContatoInput {
    pub nome: Seq<u8>,
    pub telefone: Seq<u8>,
    pub email: Seq<u8>,
    pub idade: u32,
    pub data_aniversario: Seq<u8>,
    pub categoria: Categoria,
}

impl ContatoInput {
    pub open spec fn check(self, p: PalletView) -> Result<u64, Error> {
        check_contato(p.config, self.nome, self.telefone, self.email, self.data_aniversario)
    }

    pub open spec fn criar(self, p: PalletView, quem: AccountId) -> (PalletView, Result<u32, Error>) {
        p.criar_contato_spec(
            quem,
            self.nome,
            self.telefone,
            self.email,
            self.idade,
            self.data_aniversario,
            self.categoria,
        )
    }
}

/// The store and the results after `quem` creates one contact from each input
/// in turn.
pub open spec fn criar_em_serie(p: PalletView, quem: AccountId, inputs: Seq<ContatoInput>) -> (
    PalletView,
    Seq<Result<u32, Error>>,
)
    decreases inputs.len(),
{
    if inputs.len() == 0 {
        (p, seq![])
    } else {
        let (q, rs) = criar_em_serie(p, quem, inputs.drop_last());
        let (q2, r) = inputs.last().criar(q, quem);
        (q2, rs.push(r))
    }
}

/// A contact created from valid fields is found under the id returned, holding
/// those fields, its birth date as `convert_to_timestamp` reads the text.
pub proof fn lemma_created_contato_found(p: PalletView, quem: AccountId, c: ContatoInput)
    requires
        c.check(p) is Ok,
    ensures
        ({
            let (q, r) = c.criar(p, quem);
            &&& r is Ok
            &&& q.contatos.contains_key((quem, r->Ok_0))
            &&& q.contatos[(quem, r->Ok_0)] == ContatoView {
                id: r->Ok_0,
                nome: c.nome,
                telefone: c.telefone,
                email: c.email,
                idade: c.idade,
                data_aniversario: civil_date(c.data_aniversario)->Some_0,
                categoria: c.categoria,
            }
        }),
{
}

/// A creation refused for its date changes nothing, and the next valid
/// creation by the same owner gets the id that was free before the refusal.
pub proof fn lemma_refused_date_changes_nothing(
    p: PalletView,
    quem: AccountId,
    bad: ContatoInput,
    good: ContatoInput,
)
    requires
        civil_date(bad.data_aniversario) is None,
        good.check(p) is Ok,
    ensures
        bad.criar(p, quem) == (p, Err::<u32, Error>(Error::DataInvalida)),
        good.criar(bad.criar(p, quem).0, quem).1 == Ok::<u32, Error>(p.next_contato_id(quem)),
{
}

/// When every creation in a row by one owner succeeds, the ids handed out are
/// the owner's counter, then the next value, and so on, in call order.
pub proof fn lemma_ids_consecutive(p: PalletView, quem: AccountId, inputs: Seq<ContatoInput>)
    requires
        p.next_contato_id(quem) + inputs.len() <= u32::MAX,
        forall|i: int|
            0 <= i < inputs.len() ==> (#[trigger] criar_em_serie(p, quem, inputs).1[i]) is Ok,
    ensures
        criar_em_serie(p, quem, inputs).1.len() == inputs.len(),
        criar_em_serie(p, quem, inputs).0.next_contato_id(quem) == p.next_contato_id(quem)
            + inputs.len(),
        forall|i: int|
            0 <= i < inputs.len() ==> #[trigger] criar_em_serie(p, quem, inputs).1[i]
                == Ok::<u32, Error>((p.next_contato_id(quem) + i) as u32),
    decreases inputs.len(),
{
    if inputs.len() > 0 {
        let front = inputs.drop_last();
        let (q, rs) = criar_em_serie(p, quem, front);
        lemma_serie_len(p, quem, front);
        assert forall|i: int| 0 <= i < front.len() implies (#[trigger] criar_em_serie(
            p,
            quem,
            front,
        ).1[i]) is Ok by {
            assert(criar_em_serie(p, quem, inputs).1[i] == rs[i]);
        }
        lemma_ids_consecutive(p, quem, front);
        let last = criar_em_serie(p, quem, inputs).1[inputs.len() - 1];
        assert(last is Ok);
    }
}

proof fn lemma_serie_len(p: PalletView, quem: AccountId, inputs: Seq<ContatoInput>)
    ensures
        criar_em_serie(p, quem, inputs).1.len() == inputs.len(),
    decreases inputs.len(),
{
    if inputs.len() > 0 {
        lemma_serie_len(p, quem, inputs.drop_last());
    }
}

/// In a row of creations, every id handed out is at least the counter it
/// started from, and the counter never goes down.
proof fn lemma_serie_ids_from(p: PalletView, quem: AccountId, inputs: Seq<ContatoInput>)
    requires
        p.next_contato_id(quem) + inputs.len() <= u32::MAX,
    ensures
        criar_em_serie(p, quem, inputs).1.len() == inputs.len(),
        p.next_contato_id(quem) <= criar_em_serie(p, quem, inputs).0.next_contato_id(quem)
            <= p.next_contato_id(quem) + inputs.len(),
        forall|i: int|
            0 <= i < inputs.len() && (#[trigger] criar_em_serie(p, quem, inputs).1[i]) is Ok
                ==> p.next_contato_id(quem) <= criar_em_serie(p, quem, inputs).1[i]->Ok_0,
    decreases inputs.len(),
{
    if inputs.len() > 0 {
        let front = inputs.drop_last();
        lemma_serie_ids_from(p, quem, front);
        let (q, rs) = criar_em_serie(p, quem, front);
        let full = criar_em_serie(p, quem, inputs).1;
        assert forall|i: int| 0 <= i < inputs.len() && (#[trigger] full[i]) is Ok implies p.next_contato_id(
            quem,
        ) <= full[i]->Ok_0 by {
            if i < front.len() {
                assert(full[i] == rs[i]);
            }
        }
    }
}

/// Once the contact under `id` is deleted, no later creation by its owner is
/// given `id` again.
pub proof fn lemma_deleted_id_not_reused(
    p: PalletView,
    quem: AccountId,
    id: u32,
    inputs: Seq<ContatoInput>,
)
    requires
        p.wf(),
        p.contatos.contains_key((quem, id)),
        p.next_contato_id(quem) + inputs.len() <= u32::MAX,
    ensures
        ({
            let q = p.deletar_contato_spec(quem, id).0;
            let rs = criar_em_serie(q, quem, inputs).1;
            forall|i: int| 0 <= i < rs.len() && (#[trigger] rs[i]) is Ok ==> rs[i]->Ok_0 != id
        }),
{
    let q = p.deletar_contato_spec(quem, id).0;
    lemma_serie_ids_from(q, quem, inputs);
}

/// Updating or deleting a contact that does not exist fails with
/// `ContatoNaoEncontrado` and leaves the store as it was.
pub proof fn lemma_missing_contato_not_found(
    p: PalletView,
    quem: AccountId,
    id: u32,
    c: ContatoInput,
)
    requires
        !p.contatos.contains_key((quem, id)),
    ensures
        p.atualizar_contato_spec(
            quem,
            id,
            c.nome,
            c.telefone,
            c.email,
            c.idade,
            c.data_aniversario,
            c.categoria,
        ) == (p, Err::<(), Error>(Error::ContatoNaoEncontrado)),
        p.deletar_contato_spec(quem, id) == (p, Err::<(), Error>(Error::ContatoNaoEncontrado)),
{
}

/// Deleting an existing contact succeeds; deleting it again fails with
/// `ContatoNaoEncontrado` and changes nothing.
pub proof fn lemma_second_delete_contato_not_found(p: PalletView, quem: AccountId, id: u32)
    requires
        p.contatos.contains_key((quem, id)),
    ensures
        ({
            let (q, r) = p.deletar_contato_spec(quem, id);
            &&& r == Ok::<(), Error>(())
            &&& q.deletar_contato_spec(quem, id) == (q, Err::<(), Error>(
                Error::ContatoNaoEncontrado,
            ))
        }),
{
}

/// A name exactly as long as its ceiling is accepted; one byte more is
/// refused with `NomeMuitoLongo`, and nothing is stored.
pub proof fn lemma_name_ceiling(p: PalletView, quem: AccountId, c: ContatoInput, extra: u8)
    requires
        c.nome.len() == p.config.max_nome_length,
        c.telefone.len() <= p.config.max_telefone_length,
        c.email.len() <= p.config.max_email_length,
        civil_date(c.data_aniversario) is Some,
    ensures
        c.criar(p, quem).1 is Ok,
        (ContatoInput { nome: c.nome.push(extra), ..c }).criar(p, quem) == (p, Err::<u32, Error>(
            Error::NomeMuitoLongo,
        )),
{
}

/// Updating or deleting an appointment that does not exist fails with
/// `CompromissoNaoEncontrado` and leaves the store as it was.
pub proof fn lemma_missing_compromisso_not_found(
    p: PalletView,
    quem: AccountId,
    id: u32,
    titulo: Seq<u8>,
    data: Seq<u8>,
    hora: Seq<u8>,
    prioridade: Prioridade,
    duracao: u32,
)
    requires
        !p.compromissos.contains_key((quem, id)),
    ensures
        p.atualizar_compromisso_spec(quem, id, titulo, data, hora, prioridade, duracao) == (p, Err::<
            (),
            Error,
        >(Error::CompromissoNaoEncontrado)),
        p.deletar_compromisso_spec(quem, id) == (p, Err::<(), Error>(
            Error::CompromissoNaoEncontrado,
        )),
{
}

/// Deleting an existing appointment succeeds; deleting it again fails with
/// `CompromissoNaoEncontrado` and changes nothing.
pub proof fn lemma_second_delete_compromisso_not_found(p: PalletView, quem: AccountId, id: u32)
    requires
        p.compromissos.contains_key((quem, id)),
    ensures
        ({
            let (q, r) = p.deletar_compromisso_spec(quem, id);
            &&& r == Ok::<(), Error>(())
            &&& q.deletar_compromisso_spec(quem, id) == (q, Err::<(), Error>(
                Error::CompromissoNaoEncontrado,
            ))
        }),
{
}

} // verus!
