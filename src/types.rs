//! The records kept by the agenda, their enumerations, the notifications it
//! emits and the errors it returns.
use vstd::prelude::*;

verus! {

/// The identity under which a call runs; records and counters are kept per owner.
pub type AccountId = u64;

/// Why a call was refused. A refused call changes nothing.
#[derive(Clone, Copy, Debug, PartialEq, Eq, Structural)]
pub enum Error {
    ContatoNaoEncontrado,
    NomeMuitoLongo,
    TelefoneMuitoLongo,
    EmailMuitoLongo,
    DataInvalida,
    HoraInvalida,
    DuracaoInvalida,
    CompromissoNaoEncontrado,
    TituloMuitoLongo,
}

#[derive(Clone, Copy, Debug, PartialEq, Eq, Structural)]
pub enum Categoria {
    Amigo,
    Familiar,
    Colega,
    Outro,
}

#[derive(Clone, Copy, Debug, PartialEq, Eq, Structural)]
pub enum Prioridade {
    Alta,
    Media,
    Baixa,
}

/// A notification emitted once for each successful change, carrying the owner
/// and the id of the record changed.
#[derive(Clone, Copy, Debug, PartialEq, Eq, Structural)]
pub enum Event {
    ContatoCriado { quem: AccountId, id: u32 },
    ContatoAtualizado { quem: AccountId, id: u32 },
    ContatoDeletado { quem: AccountId, id: u32 },
    CompromissoCriado { quem: AccountId, id: u32 },
    CompromissoAtualizado { quem: AccountId, id: u32 },
    CompromissoDeletado { quem: AccountId, id: u32 },
}

/// The byte-length ceilings of the bounded text fields, fixed when the store is made.
#[derive(Clone, Copy, Debug, PartialEq, Eq, Structural)]
pub struct Config {
    pub max_nome_length: u32,
    pub max_telefone_length: u32,
    pub max_email_length: u32,
    pub max_titulo_length: u32,
    pub max_hora_length: u32,
}

#[derive(Clone, Debug)]
pub struct Contato {
    pub id: u32,
    pub nome: Vec<u8>,
    pub telefone: Vec<u8>,
    pub email: Vec<u8>,
    pub idade: u32,
    pub data_aniversario: u64,
    pub categoria: Categoria,
}

pub ghost struct ContatoView {
    pub id: u32,
    pub nome: Seq<u8>,
    pub telefone: Seq<u8>,
    pub email: Seq<u8>,
    pub idade: u32,
    pub data_aniversario: u64,
    pub categoria: Categoria,
}

impl View for Contato {
    type V = ContatoView;

    open spec fn view(&self) -> ContatoView {
        ContatoView {
            id: self.id,
            nome: self.nome@,
            telefone: self.telefone@,
            email: self.email@,
            idade: self.idade,
            data_aniversario: self.data_aniversario,
            categoria: self.categoria,
        }
    }
}

#[derive(Clone, Debug)]
pub struct Compromisso {
    pub id: u32,
    pub titulo: Vec<u8>,
    pub data: u64,
    /// The time of day as given, `HH:MM`.
    pub hora: Vec<u8>,
    pub prioridade: Prioridade,
    /// Minutes, from 1 to 600.
    pub duracao: u32,
}

pub ghost struct CompromissoView {
    pub id: u32,
    pub titulo: Seq<u8>,
    pub data: u64,
    pub hora: Seq<u8>,
    pub prioridade: Prioridade,
    pub duracao: u32,
}

impl View for Compromisso {
    type V = CompromissoView;

    open spec fn view(&self) -> CompromissoView {
        CompromissoView {
            id: self.id,
            titulo: self.titulo@,
            data: self.data,
            hora: self.hora@,
            prioridade: self.prioridade,
            duracao: self.duracao,
        }
    }
}

} // verus!
