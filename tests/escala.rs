use escala::escala::BaseEscala;
use escala::modelos::{
    Alocacao, Candidato, Data, ErroEscala, Escala, Indisponibilidade, Posto, StatusEscala,
    StatusTroca, TipoRotina, Troca,
};
use escala::periodo::{tipo_para_dia_semana, ErroPeriodo};

fn posto(id: i64, nome: &str, genero: &str, anos: &str) -> Posto {
    Posto {
        id,
        nome: nome.to_string(),
        genero_restricao: genero.to_string(),
        turmas_permitidas: anos.to_string(),
        peso: 1,
    }
}

fn pessoa(id: &str, genero: &str, ano: i64, punicoes: i64, rn: i64, rd: i64) -> Candidato {
    Candidato {
        id: id.to_string(),
        name: format!("Nome {}", id),
        genero: genero.to_string(),
        turma: "T".to_string(),
        ano,
        servicos_rn: rn,
        servicos_rd: rd,
        saldo_punicoes: punicoes,
    }
}

fn base(postos: Vec<Posto>, pessoas: Vec<Candidato>) -> BaseEscala {
    BaseEscala {
        postos,
        pessoas,
        indisponibilidades: Vec::new(),
        escalas: Vec::new(),
        alocacoes: Vec::new(),
        trocas: Vec::new(),
    }
}

fn dia(s: &str) -> Data {
    Data::ler(s).unwrap()
}

fn ids(n: usize, prefixo: &str) -> Vec<String> {
    (0..n).map(|i| format!("{}{}", prefixo, i)).collect()
}

fn retrato(b: &BaseEscala) -> String {
    format!(
        "{:?}|{:?}|{:?}|{:?}|{:?}",
        b.pessoas, b.escalas, b.alocacoes, b.trocas, b.postos
    )
}

fn contadores(b: &BaseEscala) -> Vec<(String, i64, i64, i64)> {
    b.pessoas
        .iter()
        .map(|c| (c.id.clone(), c.servicos_rn, c.servicos_rd, c.saldo_punicoes))
        .collect()
}

fn alocado(b: &BaseEscala, d: Data, posto_id: i64) -> Vec<String> {
    b.alocacoes
        .iter()
        .filter(|a| a.data == d && a.posto_id == posto_id)
        .map(|a| a.user_id.clone())
        .collect()
}

#[test]
fn aceita_ano_lista_separada_por_virgulas() {
    let p = posto(1, "P", "Misto", "1,2");
    assert!(p.aceita_ano(1));
    assert!(p.aceita_ano(2));
    assert!(!p.aceita_ano(3));
    let q = posto(2, "Q", "Misto", " 1 , 3 ");
    assert!(q.aceita_ano(3));
    assert!(q.aceita_ano(1));
    assert!(!q.aceita_ano(13));
    assert!(!posto(3, "R", "Misto", "").aceita_ano(0));
    assert!(!posto(4, "S", "Misto", "01").aceita_ano(1));
    assert!(posto(5, "U", "Misto", "-4,7").aceita_ano(-4));
    assert!(posto(6, "V", "Misto", "9223372036854775807").aceita_ano(i64::MAX));
}

#[test]
fn tipo_rotina_texto() {
    assert_eq!(TipoRotina::RN.as_str(), "RN");
    assert_eq!(TipoRotina::RD.as_str(), "RD");
}

#[test]
fn data_lida_como_numero_do_dia() {
    assert_eq!(Data::ler("2024-01-01"), Some(Data { dia: 738886 }));
    assert_eq!(Data::ler("0001-01-01"), Some(Data { dia: 1 }));
    assert_eq!(Data::ler("2024-13-01"), None);
    assert_eq!(Data::ler("ontem"), None);
}

#[test]
fn tipo_por_dia_da_semana() {
    for w in 0..4 {
        assert_eq!(tipo_para_dia_semana(w), TipoRotina::RN);
    }
    for w in 4..7 {
        assert_eq!(tipo_para_dia_semana(w), TipoRotina::RD);
    }
}

#[test]
fn punicao_tem_prioridade_e_nao_conta_servico() {
    let mut b = base(
        vec![posto(1, "Portaria", "Misto", "1,2")],
        vec![pessoa("A", "M", 1, 0, 3, 0), pessoa("B", "F", 2, 1, 5, 0)],
    );
    let d = dia("2024-05-06");
    assert!(b.gerar_escala_diaria(d, TipoRotina::RN).is_ok());
    assert_eq!(b.alocacoes.len(), 1);
    let a = &b.alocacoes[0];
    assert_eq!(a.user_id, "B");
    assert!(a.is_punicao);
    assert_eq!(b.pessoas[1].saldo_punicoes, 0);
    assert_eq!(b.pessoas[1].servicos_rn, 5);
    assert_eq!(b.pessoas[0].servicos_rn, 3);
}

#[test]
fn servico_normal_soma_no_contador_do_tipo() {
    let mut b = base(
        vec![posto(1, "Portaria", "Misto", "1")],
        vec![pessoa("A", "M", 1, 0, 3, 7), pessoa("C", "M", 1, 0, 2, 9)],
    );
    let d = dia("2024-05-10");
    b.gerar_escala_diaria(d, TipoRotina::RD).unwrap();
    assert_eq!(b.alocacoes[0].user_id, "A");
    assert!(!b.alocacoes[0].is_punicao);
    assert_eq!(b.pessoas[0].servicos_rd, 8);
    assert_eq!(b.pessoas[0].servicos_rn, 3);
    assert_eq!(b.escalas, vec![Escala { data: d, tipo: TipoRotina::RD, status: StatusEscala::Rascunho }]);
}

#[test]
fn empate_decidido_pelo_identificador() {
    let mut b = base(
        vec![posto(1, "P", "Misto", "1")],
        vec![pessoa("bb", "M", 1, 0, 2, 0), pessoa("ab", "M", 1, 0, 2, 0), pessoa("b", "M", 1, 0, 2, 0)],
    );
    b.gerar_escala_diaria(dia("2024-05-06"), TipoRotina::RN).unwrap();
    assert_eq!(b.alocacoes[0].user_id, "ab");
}

#[test]
fn restricoes_de_genero_ano_e_indisponibilidade() {
    let mut b = base(
        vec![posto(1, "Feminino", "F", "2")],
        vec![
            pessoa("M1", "M", 2, 5, 0, 0),
            pessoa("F1", "F", 1, 5, 0, 0),
            pessoa("F2", "F", 2, 0, 0, 0),
            pessoa("F3", "F", 2, 0, 4, 0),
        ],
    );
    let d = dia("2024-05-07");
    b.indisponibilidades.push(Indisponibilidade {
        id: 1,
        user_id: "F2".to_string(),
        data_inicio: dia("2024-05-01"),
        data_fim: dia("2024-05-07"),
        motivo: None,
    });
    b.gerar_escala_diaria(d, TipoRotina::RN).unwrap();
    assert_eq!(alocado(&b, d, 1), vec!["F3".to_string()]);
}

#[test]
fn cada_posto_recebe_uma_alocacao() {
    let mut b = base(
        vec![posto(1, "A", "Misto", "1,2"), posto(2, "B", "Misto", "1,2"), posto(3, "C", "M", "2")],
        vec![
            pessoa("p1", "M", 1, 0, 0, 0),
            pessoa("p2", "F", 2, 0, 1, 0),
            pessoa("p3", "M", 2, 0, 2, 0),
            pessoa("p4", "M", 2, 0, 3, 0),
        ],
    );
    let d = dia("2024-05-08");
    b.gerar_escala_diaria(d, TipoRotina::RN).unwrap();
    for p in 1..=3 {
        assert_eq!(alocado(&b, d, p).len(), 1);
    }
    let mut pessoas: Vec<String> = b.alocacoes.iter().map(|a| a.user_id.clone()).collect();
    pessoas.sort();
    pessoas.dedup();
    assert_eq!(pessoas.len(), 3);
}

#[test]
fn fadiga_entre_dias_consecutivos() {
    let mut b = base(
        vec![posto(1, "P", "Misto", "1")],
        vec![pessoa("A", "M", 1, 0, 0, 0), pessoa("B", "M", 1, 0, 1, 0)],
    );
    let d1 = dia("2024-05-06");
    let d2 = dia("2024-05-07");
    b.gerar_escala_diaria(d1, TipoRotina::RN).unwrap();
    b.gerar_escala_diaria(d2, TipoRotina::RN).unwrap();
    assert_eq!(alocado(&b, d1, 1), vec!["A".to_string()]);
    assert_eq!(alocado(&b, d2, 1), vec!["B".to_string()]);
    let d3 = dia("2024-05-08");
    b.gerar_escala_diaria(d3, TipoRotina::RN).unwrap();
    assert_eq!(alocado(&b, d3, 1), vec!["A".to_string()]);
}

#[test]
fn sem_candidato_aborta_o_dia_inteiro() {
    let mut b = base(
        vec![posto(1, "P", "Misto", "1"), posto(7, "Torre", "Misto", "3")],
        vec![pessoa("A", "M", 1, 0, 0, 0)],
    );
    let antes = retrato(&b);
    match b.gerar_escala_diaria(dia("2024-05-06"), TipoRotina::RN) {
        Err(ErroEscala::SemCandidato { posto, anos }) => {
            assert_eq!(posto, "Torre");
            assert_eq!(anos, "3");
        }
        outro => panic!("inesperado: {:?}", outro),
    }
    assert_eq!(retrato(&b), antes);
}

#[test]
fn regenerar_rascunho_mantem_contadores() {
    let mut b = base(
        vec![posto(1, "A", "Misto", "1,2"), posto(2, "B", "Misto", "1,2")],
        vec![
            pessoa("p1", "M", 1, 1, 0, 0),
            pessoa("p2", "F", 2, 0, 1, 0),
            pessoa("p3", "M", 2, 0, 2, 0),
        ],
    );
    let d = dia("2024-05-08");
    b.gerar_escala_diaria(d, TipoRotina::RN).unwrap();
    let depois_de_um = contadores(&b);
    let alocs_um: Vec<(String, i64)> = b.alocacoes.iter().map(|a| (a.user_id.clone(), a.posto_id)).collect();
    b.gerar_escala_diaria(d, TipoRotina::RN).unwrap();
    b.gerar_escala_diaria(d, TipoRotina::RN).unwrap();
    assert_eq!(contadores(&b), depois_de_um);
    let alocs_tres: Vec<(String, i64)> = b.alocacoes.iter().map(|a| (a.user_id.clone(), a.posto_id)).collect();
    assert_eq!(alocs_tres, alocs_um);
    assert_eq!(b.escalas.len(), 1);
}

#[test]
fn regenerar_com_outro_tipo_desfaz_o_tipo_anterior() {
    let mut b = base(vec![posto(1, "A", "Misto", "1")], vec![pessoa("p1", "M", 1, 0, 4, 6)]);
    let d = dia("2024-05-10");
    b.gerar_escala_diaria(d, TipoRotina::RN).unwrap();
    assert_eq!((b.pessoas[0].servicos_rn, b.pessoas[0].servicos_rd), (5, 6));
    b.gerar_escala_diaria(d, TipoRotina::RD).unwrap();
    assert_eq!((b.pessoas[0].servicos_rn, b.pessoas[0].servicos_rd), (4, 7));
    assert_eq!(b.escalas[0].tipo, TipoRotina::RD);
}

#[test]
fn ids_dados_nomeiam_as_alocacoes() {
    let mut b = base(
        vec![posto(1, "A", "Misto", "1"), posto(2, "B", "Misto", "1")],
        vec![pessoa("p1", "M", 1, 0, 0, 0), pessoa("p2", "M", 1, 0, 0, 0)],
    );
    b.gerar_escala_diaria_com_ids(dia("2024-05-06"), TipoRotina::RN, ids(2, "x")).unwrap();
    let nomes: Vec<String> = b.alocacoes.iter().map(|a| a.id.clone()).collect();
    assert_eq!(nomes, vec!["x0".to_string(), "x1".to_string()]);
}

#[test]
fn alocacao_recebe_identificador_novo() {
    let mut b = base(vec![posto(1, "A", "Misto", "1")], vec![pessoa("p1", "M", 1, 0, 0, 0)]);
    b.gerar_escala_diaria(dia("2024-05-06"), TipoRotina::RN).unwrap();
    assert_eq!(b.alocacoes[0].id.len(), 36);
}

#[test]
fn dia_publicado_nao_se_regenera() {
    let mut b = base(vec![posto(1, "A", "Misto", "1")], vec![pessoa("p1", "M", 1, 0, 0, 0), pessoa("p2", "M", 1, 0, 0, 0)]);
    let d = dia("2024-05-06");
    b.gerar_escala_diaria(d, TipoRotina::RN).unwrap();
    assert_eq!(b.publicar_escala(d, d).unwrap(), 1);
    let antes = retrato(&b);
    match b.gerar_escala_diaria(d, TipoRotina::RN) {
        Err(ErroEscala::JaPublicada(x)) => assert_eq!(x, d),
        outro => panic!("inesperado: {:?}", outro),
    }
    assert_eq!(retrato(&b), antes);
}

#[test]
fn publicar_sem_rascunhos_nao_muda_nada() {
    let mut b = base(vec![posto(1, "A", "Misto", "1")], vec![pessoa("p1", "M", 1, 0, 0, 0)]);
    let d = dia("2024-05-06");
    assert!(matches!(b.publicar_escala(d, d), Err(ErroEscala::NadaParaPublicar)));
    b.gerar_escala_diaria(d, TipoRotina::RN).unwrap();
    let fora = dia("2024-06-01");
    let antes = retrato(&b);
    assert!(matches!(b.publicar_escala(fora, fora), Err(ErroEscala::NadaParaPublicar)));
    assert_eq!(retrato(&b), antes);
    b.publicar_escala(d, d).unwrap();
    let antes = retrato(&b);
    assert!(matches!(b.publicar_escala(d, d), Err(ErroEscala::NadaParaPublicar)));
    assert_eq!(retrato(&b), antes);
}

#[test]
fn publicar_conta_so_rascunhos_do_intervalo() {
    let mut b = base(vec![posto(1, "A", "Misto", "1")], (0..6).map(|i| pessoa(&format!("p{}", i), "M", 1, 0, 0, 0)).collect());
    let d1 = dia("2024-05-06");
    let d2 = dia("2024-05-08");
    let d3 = dia("2024-05-10");
    for d in [d1, d2, d3] {
        b.gerar_escala_diaria(d, TipoRotina::RN).unwrap();
    }
    b.publicar_escala(d1, d1).unwrap();
    assert_eq!(b.publicar_escala(d1, d2).unwrap(), 1);
    let estados: Vec<StatusEscala> = b.escalas.iter().map(|e| e.status).collect();
    assert_eq!(estados, vec![StatusEscala::Publicada, StatusEscala::Publicada, StatusEscala::Rascunho]);
}

#[test]
fn errata_reabre_dia_publicado() {
    let mut b = base(vec![posto(1, "A", "Misto", "1")], vec![pessoa("p1", "M", 1, 0, 0, 0)]);
    let d = dia("2024-05-06");
    assert!(matches!(b.errata_dia(d), Err(ErroEscala::EscalaInexistente(_))));
    b.gerar_escala_diaria(d, TipoRotina::RN).unwrap();
    assert!(matches!(b.errata_dia(d), Err(ErroEscala::NaoPublicada(_))));
    b.publicar_escala(d, d).unwrap();
    assert!(b.errata_dia(d).is_ok());
    assert_eq!(b.escalas[0].status, StatusEscala::Rascunho);
    assert!(b.gerar_escala_diaria(d, TipoRotina::RN).is_ok());
}

#[test]
fn periodo_usa_o_dia_da_semana() {
    let pessoas = (0..4).map(|i| pessoa(&format!("p{}", i), "M", 1, 0, 0, 0)).collect();
    let mut b = base(vec![posto(1, "A", "Misto", "1")], pessoas);
    // 2024-05-06 is a Monday
    assert_eq!(b.gerar_escala_periodo("2024-05-06", "2024-05-12").unwrap(), 7);
    let tipos: Vec<TipoRotina> = b.escalas.iter().map(|e| e.tipo).collect();
    let (rn, rd) = (TipoRotina::RN, TipoRotina::RD);
    assert_eq!(tipos, vec![rn, rn, rn, rn, rd, rd, rd]);
    assert_eq!(b.alocacoes.len(), 7);
}

#[test]
fn periodo_valida_as_datas() {
    let mut b = base(vec![posto(1, "A", "Misto", "1")], vec![pessoa("p1", "M", 1, 0, 0, 0)]);
    assert!(matches!(b.gerar_escala_periodo("2024-05-x", "2024-05-12"), Err(ErroPeriodo::DataInvalida)));
    assert!(matches!(b.gerar_escala_periodo("2024-05-06", "12/05/2024"), Err(ErroPeriodo::DataInvalida)));
    assert!(matches!(b.gerar_escala_periodo("2024-05-12", "2024-05-06"), Err(ErroPeriodo::IntervaloInvalido)));
    assert!(b.escalas.is_empty());
}

#[test]
fn periodo_para_no_primeiro_dia_que_falha() {
    let mut b = base(
        vec![posto(1, "A", "Misto", "1")],
        vec![pessoa("p1", "M", 1, 0, 0, 0)],
    );
    // the only person is not rested on the second day
    let r = b.gerar_escala_periodo("2024-05-06", "2024-05-10");
    match r {
        Err(ErroPeriodo::FalhaNoDia(d, ErroEscala::SemCandidato { .. })) => {
            assert_eq!(d, dia("2024-05-07"))
        }
        outro => panic!("inesperado: {:?}", outro),
    }
    assert_eq!(b.escalas.len(), 1);
    assert_eq!(b.alocacoes.len(), 1);
}

fn base_com_troca() -> (BaseEscala, Data) {
    let mut b = base(
        vec![posto(1, "A", "Misto", "1")],
        vec![pessoa("R", "M", 1, 0, 0, 0), pessoa("S", "M", 1, 0, 5, 0), pessoa("X", "M", 1, 0, 9, 0)],
    );
    let d = dia("2024-05-08");
    b.gerar_escala_diaria_com_ids(d, TipoRotina::RN, vec!["al1".to_string()]).unwrap();
    assert_eq!(b.alocacoes[0].user_id, "R");
    (b, d)
}

#[test]
fn pedido_de_troca_com_substituto_cansado_falha() {
    let (mut b, d) = base_com_troca();
    b.alocacoes.push(Alocacao {
        id: "ontem".to_string(),
        user_id: "S".to_string(),
        posto_id: 1,
        data: Data { dia: d.dia - 1 },
        is_punicao: false,
    });
    let antes = retrato(&b);
    assert!(matches!(b.solicitar_troca("R", "al1", "S", "motivo", "2024-05-01 10:00"), Err(ErroEscala::Fadiga)));
    assert!(b.trocas.is_empty());
    assert_eq!(retrato(&b), antes);
}

#[test]
fn pedido_de_troca_registado_pendente() {
    let (mut b, _) = base_com_troca();
    b.solicitar_troca("R", "al1", "S", "consulta", "2024-05-01 10:00").unwrap();
    assert_eq!(b.trocas.len(), 1);
    let t = &b.trocas[0];
    assert_eq!(t.id.len(), 36);
    assert_eq!(t.solicitante_id, "R");
    assert_eq!(t.substituto_id, "S");
    assert_eq!(t.alocacao_id, "al1");
    assert_eq!(t.motivo, "consulta");
    assert_eq!(t.status, StatusTroca::Pendente);
    assert_eq!(t.criado_em.as_deref(), Some("2024-05-01 10:00"));
    assert_eq!(t.data_resposta, None);
}

#[test]
fn pedido_de_troca_erros() {
    let (mut b, d) = base_com_troca();
    assert!(matches!(b.solicitar_troca_com_id("R", "nada", "S", "m", "t", "t1".to_string()), Err(ErroEscala::AlocacaoNaoEncontrada)));
    b.publicar_escala(d, d).unwrap();
    assert!(matches!(b.solicitar_troca_com_id("R", "al1", "S", "m", "t", "t1".to_string()), Err(ErroEscala::JaPublicada(_))));
    assert!(b.trocas.is_empty());
}

#[test]
fn resposta_do_substituto() {
    let (mut b, _) = base_com_troca();
    b.solicitar_troca_com_id("R", "al1", "S", "m", "t0", "t1".to_string()).unwrap();
    b.solicitar_troca_com_id("R", "al1", "X", "m", "t0", "t2".to_string()).unwrap();
    assert!(matches!(b.responder_troca_usuario("zz", "S", "aceitar", "t1"), Err(ErroEscala::TrocaNaoEncontrada)));
    assert!(matches!(b.responder_troca_usuario("t1", "X", "aceitar", "t1"), Err(ErroEscala::SemPermissao)));
    assert_eq!(b.responder_troca_usuario("t1", "S", "aceitar", "t1").unwrap(), StatusTroca::AguardandoEscalante);
    assert_eq!(b.trocas[0].status, StatusTroca::AguardandoEscalante);
    assert_eq!(b.trocas[0].data_resposta, None);
    assert!(matches!(b.responder_troca_usuario("t1", "S", "recusar", "t1"), Err(ErroEscala::JaRespondida)));
    assert_eq!(b.responder_troca_usuario("t2", "X", "recusar", "2024-05-02").unwrap(), StatusTroca::Recusada);
    assert_eq!(b.trocas[1].status, StatusTroca::Recusada);
    assert_eq!(b.trocas[1].data_resposta.as_deref(), Some("2024-05-02"));
}

#[test]
fn aprovacao_transfere_alocacao_e_contadores() {
    let (mut b, _) = base_com_troca();
    assert_eq!(b.pessoas[0].servicos_rn, 1);
    b.solicitar_troca_com_id("R", "al1", "S", "m", "t0", "t1".to_string()).unwrap();
    b.responder_troca_usuario("t1", "S", "aceitar", "t1").unwrap();
    b.aprovar_troca("t1", "2024-05-03").unwrap();
    assert_eq!(b.alocacoes[0].user_id, "S");
    assert_eq!(b.pessoas[0].servicos_rn, 0);
    assert_eq!(b.pessoas[1].servicos_rn, 6);
    assert_eq!(b.trocas[0].status, StatusTroca::Aprovada);
    assert_eq!(b.trocas[0].data_resposta.as_deref(), Some("2024-05-03"));
    assert!(matches!(b.aprovar_troca("t1", "x"), Err(ErroEscala::TrocaInvalida)));
}

#[test]
fn aprovacao_de_punicao_nao_move_contadores() {
    let mut b = base(
        vec![posto(1, "A", "Misto", "1")],
        vec![pessoa("R", "M", 1, 2, 0, 0), pessoa("S", "M", 1, 0, 5, 0)],
    );
    let d = dia("2024-05-08");
    b.gerar_escala_diaria_com_ids(d, TipoRotina::RN, vec!["al1".to_string()]).unwrap();
    assert!(b.alocacoes[0].is_punicao);
    b.solicitar_troca_com_id("R", "al1", "S", "m", "t0", "t1".to_string()).unwrap();
    b.aprovar_troca("t1", "agora").unwrap();
    assert_eq!(b.alocacoes[0].user_id, "S");
    assert_eq!(contadores(&b), vec![("R".to_string(), 0, 0, 1), ("S".to_string(), 5, 0, 0)]);
}

#[test]
fn aprovacao_revalida_fadiga() {
    let (mut b, d) = base_com_troca();
    b.solicitar_troca_com_id("R", "al1", "S", "m", "t0", "t1".to_string()).unwrap();
    b.responder_troca_usuario("t1", "S", "aceitar", "t1").unwrap();
    b.alocacoes.push(Alocacao {
        id: "manual".to_string(),
        user_id: "S".to_string(),
        posto_id: 1,
        data: Data { dia: d.dia + 1 },
        is_punicao: false,
    });
    let antes = retrato(&b);
    assert!(matches!(b.aprovar_troca("t1", "agora"), Err(ErroEscala::Fadiga)));
    assert_eq!(retrato(&b), antes);
    assert_eq!(b.trocas[0].status, StatusTroca::AguardandoEscalante);
}

#[test]
fn troca_recusada_nao_se_aprova() {
    let (mut b, _) = base_com_troca();
    b.solicitar_troca_com_id("R", "al1", "S", "m", "t0", "t1".to_string()).unwrap();
    b.responder_troca_usuario("t1", "S", "recusar", "t1").unwrap();
    assert!(matches!(b.aprovar_troca("t1", "agora"), Err(ErroEscala::TrocaInvalida)));
}

#[test]
fn contador_no_limite_recusa_o_dia() {
    let mut b = base(vec![posto(1, "A", "Misto", "1")], vec![pessoa("p1", "M", 1, 0, i64::MAX, 0)]);
    let antes = retrato(&b);
    assert!(matches!(b.gerar_escala_diaria(dia("2024-05-06"), TipoRotina::RN), Err(ErroEscala::ContadorExcedido)));
    assert_eq!(retrato(&b), antes);
}

#[test]
fn troca_sobre_alocacao_existente() {
    let mut b = base(vec![posto(1, "A", "Misto", "1")], vec![pessoa("R", "M", 1, 0, 0, 0)]);
    b.escalas.push(Escala { data: Data { dia: 10 }, tipo: TipoRotina::RN, status: StatusEscala::Rascunho });
    b.alocacoes.push(Alocacao { id: "a".to_string(), user_id: "R".to_string(), posto_id: 1, data: Data { dia: 10 }, is_punicao: false });
    b.trocas.push(Troca {
        id: "t".to_string(),
        solicitante_id: "R".to_string(),
        substituto_id: "R".to_string(),
        alocacao_id: "a".to_string(),
        status: StatusTroca::Pendente,
        motivo: String::new(),
        criado_em: None,
        data_resposta: None,
    });
    // the allocation being swapped does not count against its own substitute
    assert!(b.aprovar_troca("t", "agora").is_ok());
}

#[test]
fn estados_lidos_e_escritos() {
    for s in [StatusTroca::Pendente, StatusTroca::AguardandoEscalante, StatusTroca::Aprovada, StatusTroca::Recusada] {
        assert_eq!(StatusTroca::ler(s.as_str()), s);
    }
    assert_eq!(StatusTroca::ler("desconhecido"), StatusTroca::Pendente);
    assert_eq!(StatusEscala::ler("Publicada"), StatusEscala::Publicada);
    assert_eq!(StatusEscala::ler("Rascunho"), StatusEscala::Rascunho);
    assert_eq!(StatusEscala::ler("publicada"), StatusEscala::Rascunho);
    assert_eq!(StatusEscala::Publicada.as_str(), "Publicada");
    assert_eq!(TipoRotina::ler("RN"), TipoRotina::RN);
    assert_eq!(TipoRotina::ler("RD"), TipoRotina::RD);
}
