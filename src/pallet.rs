//! The record store: contacts and appointments kept per owner, with a counter
//! per owner and kind that gives the next id, and the log of notifications.
use vstd::prelude::*;

use std::collections::BTreeMap;
use vstd::slice::slice_to_vec;
use vstd::utf8::encode_utf8;

use crate::calendar::{civil_date, valid_duration, valid_time_of_day};
use crate::types::{
    AccountId, Categoria, Compromisso, CompromissoView, Config, Contato, ContatoView, Error, Event,
    Prioridade,
};

verus! {

/// An agenda for any number of owners. Records are keyed by owner and id; ids
/// are handed out per owner and kind from a counter that only grows, so an id
/// is never given twice, even after its record is deleted.
pub struct Pallet {
    config: Config,
    contatos: BTreeMap<(AccountId, u32), Contato>,
    contador_contatos: BTreeMap<AccountId, u32>,
    compromissos: BTreeMap<(AccountId, u32), Compromisso>,
    contador_compromissos: BTreeMap<AccountId, u32>,
    eventos: Vec<Event>,
}

/// What a [`Pallet`] holds, as mathematical values. A counter absent from its
/// map stands at zero.
pub ghost struct PalletView {
    pub config: Config,
    pub contatos: Map<(AccountId, u32), ContatoView>,
    pub contador_contatos: Map<AccountId, u32>,
    pub compromissos: Map<(AccountId, u32), CompromissoView>,
    pub contador_compromissos: Map<AccountId, u32>,
    pub eventos: Seq<Event>,
}

/// The checks a contact's fields go through, in order; on success, the
/// birth date as a timestamp.
pub open spec fn check_contato(
    config: Config,
    nome: Seq<u8>,
    telefone: Seq<u8>,
    email: Seq<u8>,
    data_aniversario: Seq<u8>,
) -> Result<u64, Error> {
    match civil_date(data_aniversario) {
        None => Err(Error::DataInvalida),
        Some(t) => {
            if nome.len() > config.max_nome_length {
                Err(Error::NomeMuitoLongo)
            } else if telefone.len() > config.max_telefone_length {
                Err(Error::TelefoneMuitoLongo)
            } else if email.len() > config.max_email_length {
                Err(Error::EmailMuitoLongo)
            } else {
                Ok(t)
            }
        },
    }
}

/// The checks an appointment's fields go through, in order; on success, its
/// date as a timestamp.
pub open spec fn check_compromisso(
    config: Config,
    titulo: Seq<u8>,
    data: Seq<u8>,
    hora: Seq<u8>,
    duracao: u32,
) -> Result<u64, Error> {
    match civil_date(data) {
        None => Err(Error::DataInvalida),
        Some(t) => {
            if !valid_time_of_day(hora) {
                Err(Error::HoraInvalida)
            } else if !valid_duration(duracao as int) {
                Err(Error::DuracaoInvalida)
            } else if titulo.len() > config.max_titulo_length {
                Err(Error::TituloMuitoLongo)
            } else if hora.len() > config.max_hora_length {
                Err(Error::HoraInvalida)
            } else {
                Ok(t)
            }
        },
    }
}

/// A stored contact respects the ceilings.
pub open spec fn contato_fits(config: Config, c: ContatoView) -> bool {
    &&& c.nome.len() <= config.max_nome_length
    &&& c.telefone.len() <= config.max_telefone_length
    &&& c.email.len() <= config.max_email_length
}

/// A stored appointment respects the ceilings and holds a valid time and length.
pub open spec fn compromisso_fits(config: Config, c: CompromissoView) -> bool {
    &&& c.titulo.len() <= config.max_titulo_length
    &&& c.hora.len() <= config.max_hora_length
    &&& valid_time_of_day(c.hora)
    &&& valid_duration(c.duracao as int)
}

impl PalletView {
    pub open spec fn next_contato_id(self, quem: AccountId) -> u32 {
        if self.contador_contatos.contains_key(quem) {
            self.contador_contatos[quem]
        } else {
            0
        }
    }

    pub open spec fn next_compromisso_id(self, quem: AccountId) -> u32 {
        if self.contador_compromissos.contains_key(quem) {
            self.contador_compromissos[quem]
        } else {
            0
        }
    }

    /// Every record sits under its own id, below its owner's counter, and
    /// within the bounds of the configuration.
    pub open spec fn wf(self) -> bool {
        &&& forall|k: (AccountId, u32)| #[trigger]
            self.contatos.contains_key(k) ==> {
                &&& self.contatos[k].id == k.1
                &&& k.1 < self.next_contato_id(k.0)
                &&& contato_fits(self.config, self.contatos[k])
            }
        &&& forall|k: (AccountId, u32)| #[trigger]
            self.compromissos.contains_key(k) ==> {
                &&& self.compromissos[k].id == k.1
                &&& k.1 < self.next_compromisso_id(k.0)
                &&& compromisso_fits(self.config, self.compromissos[k])
            }
    }

    /// The store after contact `c` is created for `quem` under the next id.
    pub open spec fn contato_created(self, quem: AccountId, c: ContatoView) -> PalletView {
        let id = self.next_contato_id(quem);
        PalletView {
            config: self.config,
            contatos: self.contatos.insert((quem, id), c),
            contador_contatos: self.contador_contatos.insert(quem, (id + 1) as u32),
            compromissos: self.compromissos,
            contador_compromissos: self.contador_compromissos,
            eventos: self.eventos.push(Event::ContatoCriado { quem, id }),
        }
    }

    /// The store after contact `c` replaces the one of `quem` with id `c.id`.
    pub open spec fn contato_updated(self, quem: AccountId, c: ContatoView) -> PalletView {
        PalletView {
            config: self.config,
            contatos: self.contatos.insert((quem, c.id), c),
            contador_contatos: self.contador_contatos,
            compromissos: self.compromissos,
            contador_compromissos: self.contador_compromissos,
            eventos: self.eventos.push(Event::ContatoAtualizado { quem, id: c.id }),
        }
    }

    /// The store after the contact of `quem` with id `id` is removed.
    pub open spec fn contato_deleted(self, quem: AccountId, id: u32) -> PalletView {
        PalletView {
            config: self.config,
            contatos: self.contatos.remove((quem, id)),
            contador_contatos: self.contador_contatos,
            compromissos: self.compromissos,
            contador_compromissos: self.contador_compromissos,
            eventos: self.eventos.push(Event::ContatoDeletado { quem, id }),
        }
    }

    /// The store after appointment `c` is created for `quem` under the next id.
    pub open spec fn compromisso_created(self, quem: AccountId, c: CompromissoView) -> PalletView {
        let id = self.next_compromisso_id(quem);
        PalletView {
            config: self.config,
            contatos: self.contatos,
            contador_contatos: self.contador_contatos,
            compromissos: self.compromissos.insert((quem, id), c),
            contador_compromissos: self.contador_compromissos.insert(quem, (id + 1) as u32),
            eventos: self.eventos.push(Event::CompromissoCriado { quem, id }),
        }
    }

    /// The store after appointment `c` replaces the one of `quem` with id `c.id`.
    pub open spec fn compromisso_updated(self, quem: AccountId, c: CompromissoView) -> PalletView {
        PalletView {
            config: self.config,
            contatos: self.contatos,
            contador_contatos: self.contador_contatos,
            compromissos: self.compromissos.insert((quem, c.id), c),
            contador_compromissos: self.contador_compromissos,
            eventos: self.eventos.push(Event::CompromissoAtualizado { quem, id: c.id }),
        }
    }

    /// The store after the appointment of `quem` with id `id` is removed.
    pub open spec fn compromisso_deleted(self, quem: AccountId, id: u32) -> PalletView {
        PalletView {
            config: self.config,
            contatos: self.contatos,
            contador_contatos: self.contador_contatos,
            compromissos: self.compromissos.remove((quem, id)),
            contador_compromissos: self.contador_compromissos,
            eventos: self.eventos.push(Event::CompromissoDeletado { quem, id }),
        }
    }
}

impl PalletView {
    /// What `criar_contato` does: the store after the call, and its result.
    pub open spec fn criar_contato_spec(
        self,
        quem: AccountId,
        nome: Seq<u8>,
        telefone: Seq<u8>,
        email: Seq<u8>,
        idade: u32,
        data_aniversario: Seq<u8>,
        categoria: Categoria,
    ) -> (PalletView, Result<u32, Error>) {
        match check_contato(self.config, nome, telefone, email, data_aniversario) {
            Err(e) => (self, Err(e)),
            Ok(t) => {
                let id = self.next_contato_id(quem);
                let c = ContatoView {
                    id,
                    nome,
                    telefone,
                    email,
                    idade,
                    data_aniversario: t,
                    categoria,
                };
                (self.contato_created(quem, c), Ok(id))
            },
        }
    }

    /// What `atualizar_contato` does: the store after the call, and its result.
    pub open spec fn atualizar_contato_spec(
        self,
        quem: AccountId,
        id: u32,
        nome: Seq<u8>,
        telefone: Seq<u8>,
        email: Seq<u8>,
        idade: u32,
        data_aniversario: Seq<u8>,
        categoria: Categoria,
    ) -> (PalletView, Result<(), Error>) {
        if !self.contatos.contains_key((quem, id)) {
            (self, Err(Error::ContatoNaoEncontrado))
        } else {
            match check_contato(self.config, nome, telefone, email, data_aniversario) {
                Err(e) => (self, Err(e)),
                Ok(t) => {
                    let c = ContatoView {
                        id,
                        nome,
                        telefone,
                        email,
                        idade,
                        data_aniversario: t,
                        categoria,
                    };
                    (self.contato_updated(quem, c), Ok(()))
                },
            }
        }
    }

    /// What `deletar_contato` does: the store after the call, and its result.
    pub open spec fn deletar_contato_spec(self, quem: AccountId, id: u32) -> (PalletView, Result<(), Error>) {
        if !self.contatos.contains_key((quem, id)) {
            (self, Err(Error::ContatoNaoEncontrado))
        } else {
            (self.contato_deleted(quem, id), Ok(()))
        }
    }

    /// What `criar_compromisso` does: the store after the call, and its result.
    pub open spec fn criar_compromisso_spec(
        self,
        quem: AccountId,
        titulo: Seq<u8>,
        data: Seq<u8>,
        hora: Seq<u8>,
        prioridade: Prioridade,
        duracao: u32,
    ) -> (PalletView, Result<u32, Error>) {
        match check_compromisso(self.config, titulo, data, hora, duracao) {
            Err(e) => (self, Err(e)),
            Ok(t) => {
                let id = self.next_compromisso_id(quem);
                let c = CompromissoView { id, titulo, data: t, hora, prioridade, duracao };
                (self.compromisso_created(quem, c), Ok(id))
            },
        }
    }

    /// What `atualizar_compromisso` does: the store after the call, and its result.
    pub open spec fn atualizar_compromisso_spec(
        self,
        quem: AccountId,
        id: u32,
        titulo: Seq<u8>,
        data: Seq<u8>,
        hora: Seq<u8>,
        prioridade: Prioridade,
        duracao: u32,
    ) -> (PalletView, Result<(), Error>) {
        if !self.compromissos.contains_key((quem, id)) {
            (self, Err(Error::CompromissoNaoEncontrado))
        } else {
            match check_compromisso(self.config, titulo, data, hora, duracao) {
                Err(e) => (self, Err(e)),
                Ok(t) => {
                    let c = CompromissoView { id, titulo, data: t, hora, prioridade, duracao };
                    (self.compromisso_updated(quem, c), Ok(()))
                },
            }
        }
    }

    /// What `deletar_compromisso` does: the store after the call, and its result.
    pub open spec fn deletar_compromisso_spec(self, quem: AccountId, id: u32) -> (
        PalletView,
        Result<(), Error>,
    ) {
        if !self.compromissos.contains_key((quem, id)) {
            (self, Err(Error::CompromissoNaoEncontrado))
        } else {
            (self.compromisso_deleted(quem, id), Ok(()))
        }
    }
}

impl View for Pallet {
    type V = PalletView;

    closed spec fn view(&self) -> PalletView {
        PalletView {
            config: self.config,
            contatos: self.contatos@.map_values(|c: Contato| c@),
            contador_contatos: self.contador_contatos@,
            compromissos: self.compromissos@.map_values(|c: Compromisso| c@),
            contador_compromissos: self.contador_compromissos@,
            eventos: self.eventos@,
        }
    }
}

/// The UTF-8 bytes of `s`.
fn bytes_of(s: &String) -> (r: Vec<u8>)
    ensures
        r@ == encode_utf8(s@),
{
    slice_to_vec(s.as_str().as_bytes())
}

/// Keeps `bytes` if it holds at most `max` bytes, else fails with `err`.
fn bounded(bytes: Vec<u8>, max: u32, err: Error) -> (r: Result<Vec<u8>, Error>)
    ensures
        r == (if bytes@.len() <= max {
            Ok::<Vec<u8>, Error>(bytes)
        } else {
            Err(err)
        }),
{
    if bytes.len() as u64 <= max as u64 {
        Ok(bytes)
    } else {
        Err(err)
    }
}

impl Pallet {
    /// An empty store with the given ceilings.
    pub fn new(config: Config) -> (r: Pallet)
        ensures
            r@.wf(),
            r@.config == config,
            r@.contatos.is_empty(),
            r@.contador_contatos.is_empty(),
            r@.compromissos.is_empty(),
            r@.contador_compromissos.is_empty(),
            r@.eventos.len() == 0,
    {
        Pallet {
            config,
            contatos: BTreeMap::new(),
            contador_contatos: BTreeMap::new(),
            compromissos: BTreeMap::new(),
            contador_compromissos: BTreeMap::new(),
            eventos: Vec::new(),
        }
    }

    pub fn config(&self) -> (r: Config)
        ensures
            r == self@.config,
    {
        self.config
    }

    /// The contact of `quem` with id `id`, if there is one.
    pub fn contatos(&self, quem: AccountId, id: u32) -> (r: Option<&Contato>)
        ensures
            match r {
                Some(c) => self@.contatos.contains_key((quem, id)) && c@ == self@.contatos[(quem, id)],
                None => !self@.contatos.contains_key((quem, id)),
            },
    {
        self.contatos.get(&(quem, id))
    }

    /// The id the next contact of `quem` will get.
    pub fn contador_contatos(&self, quem: AccountId) -> (r: u32)
        ensures
            r == self@.next_contato_id(quem),
    {
        match self.contador_contatos.get(&quem) {
            Some(n) => *n,
            None => 0,
        }
    }

    /// The appointment of `quem` with id `id`, if there is one.
    pub fn compromissos(&self, quem: AccountId, id: u32) -> (r: Option<&Compromisso>)
        ensures
            match r {
                Some(c) => self@.compromissos.contains_key((quem, id)) && c@ == self@.compromissos[(quem, id)],
                None => !self@.compromissos.contains_key((quem, id)),
            },
    {
        self.compromissos.get(&(quem, id))
    }

    /// The id the next appointment of `quem` will get.
    pub fn contador_compromissos(&self, quem: AccountId) -> (r: u32)
        ensures
            r == self@.next_compromisso_id(quem),
    {
        match self.contador_compromissos.get(&quem) {
            Some(n) => *n,
            None => 0,
        }
    }

    /// The notifications emitted so far, oldest first.
    pub fn eventos(&self) -> (r: &Vec<Event>)
        ensures
            r@ == self@.eventos,
    {
        &self.eventos
    }

    /// Creates a contact for `quem` under the owner's next id and returns that
    /// id. Nothing changes when a field is refused. The owner's counter must
    /// be below `u32::MAX`, so that the id after this one exists.
    pub fn criar_contato(
        &mut self,
        quem: AccountId,
        nome: String,
        telefone: String,
        email: String,
        idade: u32,
        data_aniversario: String,
        categoria: Categoria,
    ) -> (r: Result<u32, Error>)
        requires
            old(self)@.wf(),
            old(self)@.next_contato_id(quem) < u32::MAX,
        ensures
            final(self)@.wf(),
            (final(self)@, r) == old(self)@.criar_contato_spec(
                quem,
                encode_utf8(nome@),
                encode_utf8(telefone@),
                encode_utf8(email@),
                idade,
                encode_utf8(data_aniversario@),
                categoria,
            ),
    {
        let id = self.contador_contatos(quem);
        let data = Self::convert_to_timestamp(bytes_of(&data_aniversario))?;
        let nome = bounded(bytes_of(&nome), self.config.max_nome_length, Error::NomeMuitoLongo)?;
        let telefone = bounded(
            bytes_of(&telefone),
            self.config.max_telefone_length,
            Error::TelefoneMuitoLongo,
        )?;
        let email = bounded(bytes_of(&email), self.config.max_email_length, Error::EmailMuitoLongo)?;
        let contato = Contato { id, nome, telefone, email, idade, data_aniversario: data, categoria };
        let ghost c = contato@;
        self.contatos.insert((quem, id), contato);
        self.contador_contatos.insert(quem, id + 1);
        self.eventos.push(Event::ContatoCriado { quem, id });
        proof {
            assert(self@.contatos =~= old(self)@.contatos.insert((quem, id), c));
            assert(self@ == old(self)@.contato_created(quem, c));
        }
        Ok(id)
    }

    /// Replaces every field but the id of the contact of `quem` with id `id`.
    /// Fails with `ContatoNaoEncontrado` when there is none; nothing changes
    /// when a call fails.
    pub fn atualizar_contato(
        &mut self,
        quem: AccountId,
        id: u32,
        nome: String,
        telefone: String,
        email: String,
        idade: u32,
        data_aniversario: String,
        categoria: Categoria,
    ) -> (r: Result<(), Error>)
        requires
            old(self)@.wf(),
        ensures
            final(self)@.wf(),
            (final(self)@, r) == old(self)@.atualizar_contato_spec(
                quem,
                id,
                encode_utf8(nome@),
                encode_utf8(telefone@),
                encode_utf8(email@),
                idade,
                encode_utf8(data_aniversario@),
                categoria,
            ),
    {
        if !self.contatos.contains_key(&(quem, id)) {
            return Err(Error::ContatoNaoEncontrado);
        }
        let data = Self::convert_to_timestamp(bytes_of(&data_aniversario))?;
        let nome = bounded(bytes_of(&nome), self.config.max_nome_length, Error::NomeMuitoLongo)?;
        let telefone = bounded(
            bytes_of(&telefone),
            self.config.max_telefone_length,
            Error::TelefoneMuitoLongo,
        )?;
        let email = bounded(bytes_of(&email), self.config.max_email_length, Error::EmailMuitoLongo)?;
        let contato = Contato { id, nome, telefone, email, idade, data_aniversario: data, categoria };
        let ghost c = contato@;
        self.contatos.insert((quem, id), contato);
        self.eventos.push(Event::ContatoAtualizado { quem, id });
        proof {
            assert(old(self)@.contatos.contains_key((quem, id)));
            assert(self@.contatos =~= old(self)@.contatos.insert((quem, id), c));
            assert(self@ == old(self)@.contato_updated(quem, c));
        }
        Ok(())
    }

    /// Removes the contact of `quem` with id `id`; its id is not given again.
    pub fn deletar_contato(&mut self, quem: AccountId, id: u32) -> (r: Result<(), Error>)
        requires
            old(self)@.wf(),
        ensures
            final(self)@.wf(),
            (final(self)@, r) == old(self)@.deletar_contato_spec(quem, id),
    {
        if !self.contatos.contains_key(&(quem, id)) {
            return Err(Error::ContatoNaoEncontrado);
        }
        self.contatos.remove(&(quem, id));
        self.eventos.push(Event::ContatoDeletado { quem, id });
        proof {
            assert(self@.contatos =~= old(self)@.contatos.remove((quem, id)));
            assert(self@ == old(self)@.contato_deleted(quem, id));
        }
        Ok(())
    }

    /// Creates an appointment for `quem` under the owner's next id and returns
    /// that id. Nothing changes when a field is refused. The owner's counter
    /// must be below `u32::MAX`, so that the id after this one exists.
    pub fn criar_compromisso(
        &mut self,
        quem: AccountId,
        titulo: String,
        data: String,
        hora: String,
        prioridade: Prioridade,
        duracao: u32,
    ) -> (r: Result<u32, Error>)
        requires
            old(self)@.wf(),
            old(self)@.next_compromisso_id(quem) < u32::MAX,
        ensures
            final(self)@.wf(),
            (final(self)@, r) == old(self)@.criar_compromisso_spec(
                quem,
                encode_utf8(titulo@),
                encode_utf8(data@),
                encode_utf8(hora@),
                prioridade,
                duracao,
            ),
    {
        let id = self.contador_compromissos(quem);
        let compromisso = self.checked_compromisso(id, titulo, data, hora, prioridade, duracao)?;
        let ghost c = compromisso@;
        self.compromissos.insert((quem, id), compromisso);
        self.contador_compromissos.insert(quem, id + 1);
        self.eventos.push(Event::CompromissoCriado { quem, id });
        proof {
            assert(self@.compromissos =~= old(self)@.compromissos.insert((quem, id), c));
            assert(self@ == old(self)@.compromisso_created(quem, c));
        }
        Ok(id)
    }

    /// Replaces every field but the id of the appointment of `quem` with id
    /// `id`. Fails with `CompromissoNaoEncontrado` when there is none; nothing
    /// changes when a call fails.
    pub fn atualizar_compromisso(
        &mut self,
        quem: AccountId,
        id: u32,
        titulo: String,
        data: String,
        hora: String,
        prioridade: Prioridade,
        duracao: u32,
    ) -> (r: Result<(), Error>)
        requires
            old(self)@.wf(),
        ensures
            final(self)@.wf(),
            (final(self)@, r) == old(self)@.atualizar_compromisso_spec(
                quem,
                id,
                encode_utf8(titulo@),
                encode_utf8(data@),
                encode_utf8(hora@),
                prioridade,
                duracao,
            ),
    {
        if !self.compromissos.contains_key(&(quem, id)) {
            return Err(Error::CompromissoNaoEncontrado);
        }
        let compromisso = self.checked_compromisso(id, titulo, data, hora, prioridade, duracao)?;
        let ghost c = compromisso@;
        self.compromissos.insert((quem, id), compromisso);
        self.eventos.push(Event::CompromissoAtualizado { quem, id });
        proof {
            assert(old(self)@.compromissos.contains_key((quem, id)));
            assert(self@.compromissos =~= old(self)@.compromissos.insert((quem, id), c));
            assert(self@ == old(self)@.compromisso_updated(quem, c));
        }
        Ok(())
    }

    /// Removes the appointment of `quem` with id `id`; its id is not given again.
    pub fn deletar_compromisso(&mut self, quem: AccountId, id: u32) -> (r: Result<(), Error>)
        requires
            old(self)@.wf(),
        ensures
            final(self)@.wf(),
            (final(self)@, r) == old(self)@.deletar_compromisso_spec(quem, id),
    {
        if !self.compromissos.contains_key(&(quem, id)) {
            return Err(Error::CompromissoNaoEncontrado);
        }
        self.compromissos.remove(&(quem, id));
        self.eventos.push(Event::CompromissoDeletado { quem, id });
        proof {
            assert(self@.compromissos =~= old(self)@.compromissos.remove((quem, id)));
            assert(self@ == old(self)@.compromisso_deleted(quem, id));
        }
        Ok(())
    }

    /// Runs an appointment's fields through their checks and builds the record.
    fn checked_compromisso(
        &self,
        id: u32,
        titulo: String,
        data: String,
        hora: String,
        prioridade: Prioridade,
        duracao: u32,
    ) -> (r: Result<Compromisso, Error>)
        ensures
            match check_compromisso(
                self@.config,
                encode_utf8(titulo@),
                encode_utf8(data@),
                encode_utf8(hora@),
                duracao,
            ) {
                Err(e) => r is Err && r->Err_0 == e,
                Ok(t) => r is Ok && r->Ok_0@ == (CompromissoView {
                    id,
                    titulo: encode_utf8(titulo@),
                    data: t,
                    hora: encode_utf8(hora@),
                    prioridade,
                    duracao,
                }),
            },
    {
        let data = Self::convert_to_timestamp(bytes_of(&data))?;
        let hora = bytes_of(&hora);
        Self::validate_hour_input(hora.clone())?;
        Self::validate_duration_input(duracao as u64)?;
        let titulo = bounded(bytes_of(&titulo), self.config.max_titulo_length, Error::TituloMuitoLongo)?;
        let hora = bounded(hora, self.config.max_hora_length, Error::HoraInvalida)?;
        Ok(Compromisso { id, titulo, data, hora, prioridade, duracao })
    }
}

} // verus!