use agenda::pallet::Pallet;
use agenda::types::{Categoria, Config, Error, Event, Prioridade};

fn store() -> Pallet {
    Pallet::new(Config {
        max_nome_length: 100,
        max_telefone_length: 15,
        max_email_length: 100,
        max_titulo_length: 100,
        max_hora_length: 5,
    })
}

fn add_contato(p: &mut Pallet, quem: u64, nome: &str, data: &str) -> Result<u32, Error> {
    p.criar_contato(
        quem,
        nome.to_string(),
        "123".to_string(),
        "a@b.c".to_string(),
        20,
        data.to_string(),
        Categoria::Colega,
    )
}

fn add_compromisso(p: &mut Pallet, quem: u64, titulo: &str, hora: &str, duracao: u32) -> Result<u32, Error> {
    p.criar_compromisso(
        quem,
        titulo.to_string(),
        "10/02/2025".to_string(),
        hora.to_string(),
        Prioridade::Media,
        duracao,
    )
}

#[test]
fn created_contato_holds_its_inputs() {
    let mut p = store();
    let id = p
        .criar_contato(
            7,
            "Ana".to_string(),
            "555".to_string(),
            "ana@x.org".to_string(),
            44,
            "29/02/2000".to_string(),
            Categoria::Outro,
        )
        .unwrap();
    let c = p.contatos(7, id).unwrap();
    assert_eq!(c.id, id);
    assert_eq!(c.nome, b"Ana".to_vec());
    assert_eq!(c.telefone, b"555".to_vec());
    assert_eq!(c.email, b"ana@x.org".to_vec());
    assert_eq!(c.idade, 44);
    assert_eq!(c.data_aniversario, 11016 * 86400);
    assert_eq!(c.categoria, Categoria::Outro);
    assert_eq!(p.eventos().clone(), vec![Event::ContatoCriado { quem: 7, id }]);
}

#[test]
fn refused_date_keeps_the_next_id() {
    let mut p = store();
    assert_eq!(add_contato(&mut p, 1, "A", "01/01/1990"), Ok(0));
    assert_eq!(add_contato(&mut p, 1, "B", "1990-01-01"), Err(Error::DataInvalida));
    assert_eq!(p.contador_contatos(1), 1);
    assert!(p.contatos(1, 1).is_none());
    assert_eq!(p.eventos().len(), 1);
    assert_eq!(add_contato(&mut p, 1, "C", "01/01/1990"), Ok(1));
}

#[test]
fn ids_count_up_and_are_not_reused() {
    let mut p = store();
    for n in 0..5u32 {
        assert_eq!(add_contato(&mut p, 3, "X", "01/01/2000"), Ok(n));
    }
    assert_eq!(p.deletar_contato(3, 4), Ok(()));
    assert_eq!(p.contador_contatos(3), 5);
    assert_eq!(add_contato(&mut p, 3, "Y", "01/01/2000"), Ok(5));
    assert!(p.contatos(3, 4).is_none());
    for n in 0..3u32 {
        assert_eq!(add_compromisso(&mut p, 3, "T", "10:00", 30), Ok(n));
    }
}

#[test]
fn owners_are_kept_apart() {
    let mut p = store();
    assert_eq!(add_contato(&mut p, 1, "A", "01/01/1990"), Ok(0));
    assert_eq!(add_contato(&mut p, 1, "A", "01/01/1990"), Ok(1));
    assert_eq!(add_contato(&mut p, 2, "B", "01/01/1990"), Ok(0));
    assert_eq!(p.contatos(2, 0).unwrap().nome, b"B".to_vec());
    assert_eq!(p.contatos(1, 0).unwrap().nome, b"A".to_vec());
    assert_eq!(p.deletar_contato(2, 1), Err(Error::ContatoNaoEncontrado));
    assert_eq!(p.contador_contatos(2), 1);
    assert_eq!(p.contador_contatos(9), 0);
}

#[test]
fn name_at_ceiling_is_accepted_one_more_is_not() {
    let mut p = store();
    let at = "n".repeat(100);
    let over = "n".repeat(101);
    assert_eq!(add_contato(&mut p, 1, &at, "01/01/1990"), Ok(0));
    assert_eq!(add_contato(&mut p, 1, &over, "01/01/1990"), Err(Error::NomeMuitoLongo));
    assert!(p.contatos(1, 1).is_none());
    assert_eq!(p.contador_contatos(1), 1);
    // the ceiling counts bytes: 50 two-byte characters fit, 51 do not
    assert_eq!(add_contato(&mut p, 1, &"é".repeat(50), "01/01/1990"), Ok(1));
    assert_eq!(add_contato(&mut p, 1, &"é".repeat(51), "01/01/1990"), Err(Error::NomeMuitoLongo));
}

#[test]
fn each_contato_field_error() {
    let mut p = store();
    let r = p.criar_contato(1, "A".into(), "1234567890123456".into(), "e".into(), 1, "01/01/1990".into(), Categoria::Amigo);
    assert_eq!(r, Err(Error::TelefoneMuitoLongo));
    let r = p.criar_contato(1, "A".into(), "123456789012345".into(), "e".repeat(101), 1, "01/01/1990".into(), Categoria::Amigo);
    assert_eq!(r, Err(Error::EmailMuitoLongo));
    // the date is checked before the lengths
    let r = p.criar_contato(1, "A".repeat(101), "1".into(), "e".into(), 1, "x".into(), Categoria::Amigo);
    assert_eq!(r, Err(Error::DataInvalida));
    assert!(p.eventos().is_empty());
    assert_eq!(p.contador_contatos(1), 0);
}

#[test]
fn each_compromisso_field_error() {
    let mut p = store();
    assert_eq!(add_compromisso(&mut p, 1, &"t".repeat(101), "10:00", 30), Err(Error::TituloMuitoLongo));
    assert_eq!(add_compromisso(&mut p, 1, "t", "10:00", 601), Err(Error::DuracaoInvalida));
    assert_eq!(add_compromisso(&mut p, 1, "t", "10-00", 30), Err(Error::HoraInvalida));
    // a valid time longer than its ceiling is refused as well
    assert_eq!(add_compromisso(&mut p, 1, "t", "010:00", 30), Err(Error::HoraInvalida));
    let r = p.criar_compromisso(1, "t".into(), "10/2/2025/1".into(), "10:00".into(), Prioridade::Alta, 30);
    assert_eq!(r, Err(Error::DataInvalida));
    assert!(p.compromissos(1, 0).is_none());
    assert_eq!(p.contador_compromissos(1), 0);
    assert!(p.eventos().is_empty());
    assert_eq!(add_compromisso(&mut p, 1, &"t".repeat(100), "9:5", 600), Ok(0));
}

#[test]
fn missing_records_are_not_found() {
    let mut p = store();
    assert_eq!(add_contato(&mut p, 1, "A", "01/01/1990"), Ok(0));
    assert_eq!(add_compromisso(&mut p, 1, "T", "10:00", 30), Ok(0));
    let events = p.eventos().len();
    let r = p.atualizar_contato(1, 5, "B".into(), "1".into(), "e".into(), 1, "01/01/1990".into(), Categoria::Amigo);
    assert_eq!(r, Err(Error::ContatoNaoEncontrado));
    // a missing record is reported before the fields are looked at
    let r = p.atualizar_contato(1, 5, "B".into(), "1".into(), "e".into(), 1, "bad".into(), Categoria::Amigo);
    assert_eq!(r, Err(Error::ContatoNaoEncontrado));
    assert_eq!(p.deletar_contato(1, 5), Err(Error::ContatoNaoEncontrado));
    let r = p.atualizar_compromisso(1, 5, "T".into(), "10/02/2025".into(), "10:00".into(), Prioridade::Alta, 30);
    assert_eq!(r, Err(Error::CompromissoNaoEncontrado));
    assert_eq!(p.deletar_compromisso(1, 5), Err(Error::CompromissoNaoEncontrado));
    assert_eq!(p.deletar_compromisso(2, 0), Err(Error::CompromissoNaoEncontrado));
    assert_eq!(p.eventos().len(), events);
    assert_eq!(p.contatos(1, 0).unwrap().nome, b"A".to_vec());
    assert_eq!(p.compromissos(1, 0).unwrap().titulo, b"T".to_vec());
}

#[test]
fn second_delete_is_not_found() {
    let mut p = store();
    assert_eq!(add_contato(&mut p, 1, "A", "01/01/1990"), Ok(0));
    assert_eq!(add_compromisso(&mut p, 1, "T", "10:00", 30), Ok(0));
    assert_eq!(p.deletar_contato(1, 0), Ok(()));
    assert_eq!(p.deletar_contato(1, 0), Err(Error::ContatoNaoEncontrado));
    assert_eq!(p.deletar_compromisso(1, 0), Ok(()));
    assert_eq!(p.deletar_compromisso(1, 0), Err(Error::CompromissoNaoEncontrado));
    assert_eq!(
        p.eventos().clone(),
        vec![
            Event::ContatoCriado { quem: 1, id: 0 },
            Event::CompromissoCriado { quem: 1, id: 0 },
            Event::ContatoDeletado { quem: 1, id: 0 },
            Event::CompromissoDeletado { quem: 1, id: 0 },
        ]
    );
}

#[test]
fn update_keeps_id_and_counter() {
    let mut p = store();
    assert_eq!(add_compromisso(&mut p, 1, "T", "10:00", 30), Ok(0));
    let r = p.atualizar_compromisso(1, 0, "U".into(), "01/01/1990".into(), "23:59".into(), Prioridade::Baixa, 600);
    assert_eq!(r, Ok(()));
    let c = p.compromissos(1, 0).unwrap();
    assert_eq!(c.id, 0);
    assert_eq!(c.titulo, b"U".to_vec());
    assert_eq!(c.data, 7305 * 86400);
    assert_eq!(c.hora, b"23:59".to_vec());
    assert_eq!(c.prioridade, Prioridade::Baixa);
    assert_eq!(c.duracao, 600);
    assert_eq!(p.contador_compromissos(1), 1);
    let r = p.atualizar_compromisso(1, 0, "V".into(), "01/01/1990".into(), "24:00".into(), Prioridade::Alta, 30);
    assert_eq!(r, Err(Error::HoraInvalida));
    assert_eq!(p.compromissos(1, 0).unwrap().titulo, b"U".to_vec());
    assert_eq!(
        p.eventos().last().cloned(),
        Some(Event::CompromissoAtualizado { quem: 1, id: 0 })
    );
    assert_eq!(p.config().max_hora_length, 5);
}
