use vstd::prelude::*;

verus! {

/// One of the user's own duties, as the dashboard shows it.
#[derive(Clone, Debug)]
pub struct MeuServico {
    pub data: String,
    pub dia_semana: String,
    pub dia_mes: String,
    pub mes_extenso: String,
    pub posto: String,
}

/// A swap request waiting for the user's answer.
#[derive(Clone, Debug)]
pub struct NotificacaoTroca {
    pub troca_id: String,
    pub solicitante: String,
    pub data: String,
    pub posto: String,
    pub motivo: String,
}

/// One allocation as the roster page shows it.
#[derive(Clone, Debug)]
pub struct AlocacaoExibicao {
    pub alocacao_id: String,
    pub user_id: String,
    pub posto: String,
    pub militar: String,
    pub turma: String,
    pub is_punicao: bool,
    pub is_meu: bool,
}

/// One day of the roster page.
#[derive(Clone, Debug)]
pub struct EscalaDiaView {
    pub data: String,
    pub data_formatada: String,
    pub tipo: String,
    pub status: String,
    pub alocacoes: Vec<AlocacaoExibicao>,
}

/// An account with its roles, for the administration page.
#[derive(Clone, Debug)]
pub struct UserWithRoles {
    pub id: String,
    pub name: String,
    pub turma: String,
    pub ano: i64,
    pub curso: String,
    pub genero: String,
    pub roles: Vec<String>,
}

/// Short Portuguese month name, `""` outside 1..=12.
pub open spec fn nome_mes(m: u32) -> Seq<char> {
    if m == 1 {
        "Jan"@
    } else if m == 2 {
        "Fev"@
    } else if m == 3 {
        "Mar"@
    } else if m == 4 {
        "Abr"@
    } else if m == 5 {
        "Mai"@
    } else if m == 6 {
        "Jun"@
    } else if m == 7 {
        "Jul"@
    } else if m == 8 {
        "Ago"@
    } else if m == 9 {
        "Set"@
    } else if m == 10 {
        "Out"@
    } else if m == 11 {
        "Nov"@
    } else if m == 12 {
        "Dez"@
    } else {
        ""@
    }
}

pub fn month_to_pt(m: u32) -> (r: &'static str)
    ensures
        r@ == nome_mes(m),
{
    match m {
        1 => "Jan",
        2 => "Fev",
        3 => "Mar",
        4 => "Abr",
        5 => "Mai",
        6 => "Jun",
        7 => "Jul",
        8 => "Ago",
        9 => "Set",
        10 => "Out",
        11 => "Nov",
        12 => "Dez",
        _ => "",
    }
}

/// Portuguese weekday name, Monday being 0 and Sunday 6 (or more).
pub open spec fn nome_dia_semana(w: u32) -> Seq<char> {
    if w == 0 {
        "Segunda"@
    } else if w == 1 {
        "Terça"@
    } else if w == 2 {
        "Quarta"@
    } else if w == 3 {
        "Quinta"@
    } else if w == 4 {
        "Sexta"@
    } else if w == 5 {
        "Sábado"@
    } else {
        "Domingo"@
    }
}

pub fn weekday_to_pt(w: u32) -> (r: &'static str)
    ensures
        r@ == nome_dia_semana(w),
{
    match w {
        0 => "Segunda",
        1 => "Terça",
        2 => "Quarta",
        3 => "Quinta",
        4 => "Sexta",
        5 => "Sábado",
        _ => "Domingo",
    }
}

/// ASCII lower case of a character.
pub open spec fn minuscula(c: char) -> char {
    if 'A' <= c && c <= 'Z' {
        ((c as u32) + 32) as char
    } else {
        c
    }
}

/// Equal up to ASCII case, as `str::eq_ignore_ascii_case` compares.
pub open spec fn iguais_sem_caixa(a: Seq<char>, b: Seq<char>) -> bool {
    a.len() == b.len() && forall|i: int| 0 <= i < a.len() ==> minuscula(a[i]) == minuscula(b[i])
}

fn minuscula_de(c: char) -> (r: char)
    ensures
        r == minuscula(c),
{
    if 'A' <= c && c <= 'Z' {
        ((c as u8) + 32) as char
    } else {
        c
    }
}

pub fn igual_sem_caixa(a: &str, b: &str) -> (r: bool)
    ensures
        r == iguais_sem_caixa(a@, b@),
{
    let n = a.unicode_len();
    if n != b.unicode_len() {
        return false;
    }
    let mut i: usize = 0;
    while i < n
        invariant
            n == a@.len(),
            n == b@.len(),
            i <= n,
            forall|k: int| 0 <= k < i ==> minuscula(a@[k]) == minuscula(b@[k]),
        decreases n - i,
    {
        if minuscula_de(a.get_char(i)) != minuscula_de(b.get_char(i)) {
            return false;
        }
        i = i + 1;
    }
    true
}

/// Whether some held role matches some required one, ignoring ASCII case; with no
/// required roles, access is granted.
pub open spec fn papel_serve(papeis: Seq<String>, exigidos: Seq<String>) -> bool {
    exigidos.len() == 0 || exists|i: int, j: int|
        0 <= i < papeis.len() && 0 <= j < exigidos.len() && iguais_sem_caixa(
            (#[trigger] papeis[i])@,
            (#[trigger] exigidos[j])@,
        )
}

pub fn tem_papel(papeis: &Vec<String>, exigidos: &Vec<String>) -> (r: bool)
    ensures
        r == papel_serve(papeis@, exigidos@),
{
    if exigidos.len() == 0 {
        return true;
    }
    let mut i: usize = 0;
    while i < papeis.len()
        invariant
            i <= papeis@.len(),
            forall|a: int, b: int|
                0 <= a < i && 0 <= b < exigidos@.len() ==> !iguais_sem_caixa(
                    (#[trigger] papeis@[a])@,
                    (#[trigger] exigidos@[b])@,
                ),
        decreases papeis@.len() - i,
    {
        let mut j: usize = 0;
        while j < exigidos.len()
            invariant
                i < papeis@.len(),
                j <= exigidos@.len(),
                forall|a: int, b: int|
                    0 <= a < i && 0 <= b < exigidos@.len() ==> !iguais_sem_caixa(
                        (#[trigger] papeis@[a])@,
                        (#[trigger] exigidos@[b])@,
                    ),
                forall|b: int| 0 <= b < j ==> !iguais_sem_caixa(papeis@[i as int]@, (#[trigger] exigidos@[b])@),
            decreases exigidos@.len() - j,
        {
            if igual_sem_caixa(papeis[i].as_str(), exigidos[j].as_str()) {
                return true;
            }
            j = j + 1;
        }
        i = i + 1;
    }
    false
}

} // verus!
