use escala::exibicao::{month_to_pt, tem_papel, weekday_to_pt};
use escala::presenca::{
    calcular_stats, esta_fora, lista_presenca, montar_presenca, ordenar_por_id, PresenceEntry,
    PresencePerson, User,
};

fn pessoa(fora: bool) -> PresencePerson {
    PresencePerson {
        id: "x".to_string(),
        nome: "X".to_string(),
        turma: "T".to_string(),
        ano: 1,
        ultima_saida: None,
        ultimo_retorno: None,
        usuario_saida: None,
        usuario_retorno: None,
        esta_fora: fora,
    }
}

#[test]
fn estatisticas_de_presenca() {
    let s = calcular_stats(&vec![pessoa(true), pessoa(false), pessoa(true)]);
    assert_eq!((s.fora, s.dentro, s.total), (2, 1, 3));
    let v = calcular_stats(&Vec::new());
    assert_eq!((v.fora, v.dentro, v.total), (0, 0, 0));
}

#[test]
fn fora_quando_saida_mais_recente() {
    assert!(esta_fora(Some(10), Some(5)));
    assert!(!esta_fora(Some(5), Some(10)));
    assert!(!esta_fora(Some(5), Some(5)));
    assert!(esta_fora(Some(5), None));
    assert!(!esta_fora(None, Some(5)));
    assert!(!esta_fora(None, None));
}

#[test]
fn presenca_lida_de_texto_rfc3339() {
    let e = PresenceEntry {
        user_id: "u".to_string(),
        ultima_saida: Some("2024-05-06T10:00:00+01:00".to_string()),
        ultimo_retorno: Some("2024-05-06T09:30:00Z".to_string()),
        usuario_saida: Some("op".to_string()),
        usuario_retorno: None,
    };
    let p = montar_presenca("u".to_string(), "U".to_string(), "T".to_string(), 2, &e);
    assert_eq!(p.ultima_saida, Some(1714986000000));
    assert_eq!(p.ultimo_retorno, Some(1714987800000));
    assert!(!p.esta_fora);
    assert_eq!(p.usuario_saida.as_deref(), Some("op"));
    let mau = PresenceEntry { ultima_saida: Some("ontem".to_string()), ..e };
    let q = montar_presenca("u".to_string(), "U".to_string(), "T".to_string(), 2, &mau);
    assert_eq!(q.ultima_saida, None);
    assert!(!q.esta_fora);
}

#[test]
fn nomes_de_meses_e_dias() {
    assert_eq!(month_to_pt(1), "Jan");
    assert_eq!(month_to_pt(2), "Fev");
    assert_eq!(month_to_pt(12), "Dez");
    assert_eq!(month_to_pt(0), "");
    assert_eq!(month_to_pt(13), "");
    assert_eq!(weekday_to_pt(0), "Segunda");
    assert_eq!(weekday_to_pt(1), "Terça");
    assert_eq!(weekday_to_pt(5), "Sábado");
    assert_eq!(weekday_to_pt(6), "Domingo");
}

#[test]
fn papeis_sem_distincao_de_caixa() {
    let papeis = vec!["admin".to_string(), "Escalante".to_string()];
    assert!(tem_papel(&papeis, &vec!["ESCALANTE".to_string()]));
    assert!(!tem_papel(&papeis, &vec!["presenca".to_string()]));
    assert!(tem_papel(&Vec::new(), &Vec::new()));
    assert!(!tem_papel(&Vec::new(), &vec!["admin".to_string()]));
}

fn user(id: &str, ano: i64) -> User {
    User {
        id: id.to_string(),
        password_hash: String::new(),
        name: format!("N{}", id),
        turma: format!("T{}", ano),
        ano,
        curso: String::new(),
        genero: "M".to_string(),
        updated_at: None,
        created_at: None,
    }
}

fn entrada(id: &str, saida: Option<&str>, retorno: Option<&str>) -> PresenceEntry {
    PresenceEntry {
        user_id: id.to_string(),
        ultima_saida: saida.map(|s| s.to_string()),
        ultimo_retorno: retorno.map(|s| s.to_string()),
        usuario_saida: saida.map(|_| "op".to_string()),
        usuario_retorno: None,
    }
}

#[test]
fn lista_de_presenca_da_turma() {
    let users = vec![user("c", 2), user("a", 2), user("z", 1), user("b", 2)];
    let entradas = vec![
        entrada("a", Some("2024-05-06T10:00:00Z"), None),
        entrada("b", Some("2024-05-06T10:00:00Z"), Some("2024-05-06T11:00:00Z")),
        entrada("z", Some("2024-05-06T10:00:00Z"), None),
    ];
    let lista = lista_presenca(&users, &entradas, 2);
    let ids: Vec<&str> = lista.iter().map(|p| p.id.as_str()).collect();
    assert_eq!(ids, vec!["a", "b", "c"]);
    let fora: Vec<bool> = lista.iter().map(|p| p.esta_fora).collect();
    assert_eq!(fora, vec![true, false, false]);
    assert_eq!(lista[0].nome, "Na");
    assert_eq!(lista[0].usuario_saida.as_deref(), Some("op"));
    assert_eq!(lista[2].ultima_saida, None);
    let s = calcular_stats(&lista);
    assert_eq!((s.fora, s.dentro, s.total), (1, 2, 3));
    assert!(lista_presenca(&users, &entradas, 3).is_empty());
}

#[test]
fn ordena_por_identificador() {
    let mut v = Vec::new();
    for id in ["m", "b", "ab", "a", "b", "zz"] {
        let mut p = pessoa(false);
        p.id = id.to_string();
        v.push(p);
    }
    let r = ordenar_por_id(v);
    let ids: Vec<&str> = r.iter().map(|p| p.id.as_str()).collect();
    assert_eq!(ids, vec!["a", "ab", "b", "b", "m", "zz"]);
}
