use vstd::prelude::*;
use crate::busca::{lemma_nenhum, lemma_primeiro, primeiro_indice};
use crate::selecao::{id_antes, id_menor, lemma_id_menor_transitivo};
use crate::texto::texto_igual;

verus! {

/// Milliseconds since the Unix epoch of an RFC 3339 timestamp, or `None` when the text is
/// no such timestamp.
pub uninterp spec fn instante_lido(s: Seq<char>) -> Option<i64>;

/// Relies on chrono's `DateTime::parse_from_rfc3339` and on `timestamp_millis`, which
/// turns the parsed instant into milliseconds since the Unix epoch.
#[verifier::external_body]
fn ler_instante(s: &str) -> (r: Option<i64>)
    ensures
        r == instante_lido(s@),
{
    chrono::DateTime::parse_from_rfc3339(s).ok().map(|dt| dt.timestamp_millis())
}

/// One row of the presence table: the last exit and return, as RFC 3339 text, and the
/// operators that marked them.
#[derive(Clone, Debug, Default)]
pub struct PresenceEntry {
    pub user_id: String,
    pub ultima_saida: Option<String>,
    pub ultimo_retorno: Option<String>,
    pub usuario_saida: Option<String>,
    pub usuario_retorno: Option<String>,
}

/// A person with their presence state; instants in milliseconds since the Unix epoch.
#[derive(Clone, Debug)]
pub struct PresencePerson {
    pub id: String,
    pub nome: String,
    pub turma: String,
    pub ano: i64,
    pub ultima_saida: Option<i64>,
    pub ultimo_retorno: Option<i64>,
    pub usuario_saida: Option<String>,
    pub usuario_retorno: Option<String>,
    pub esta_fora: bool,
}

/// Counts of people out, on board, and in all.
#[derive(Clone, Copy, Debug, Default, PartialEq, Eq, Structural)]
pub struct PresenceStats {
    pub fora: usize,
    pub dentro: usize,
    pub total: usize,
}

/// An operator's action sent over the presence socket (`"saida"` or `"retorno"`).
#[derive(Clone, Debug)]
pub struct PresenceSocketAction {
    pub action: String,
    pub user_id: String,
}

/// The update broadcast after a presence action.
#[derive(Clone, Debug)]
pub struct PresenceSocketUpdate {
    pub success: bool,
    pub message: String,
    pub user_id: String,
    pub esta_fora: bool,
    pub saida_info_html: String,
    pub retorno_info_html: String,
    pub stats: PresenceStats,
}

/// Out when there is an exit and no later return.
pub open spec fn fora(saida: Option<i64>, retorno: Option<i64>) -> bool {
    match (saida, retorno) {
        (Some(s), Some(r)) => s > r,
        (Some(_), None) => true,
        _ => false,
    }
}

pub fn esta_fora(saida: Option<i64>, retorno: Option<i64>) -> (r: bool)
    ensures
        r == fora(saida, retorno),
{
    match (saida, retorno) {
        (Some(s), Some(r)) => s > r,
        (Some(_), None) => true,
        _ => false,
    }
}

fn ler_opcional(s: &Option<String>) -> (r: Option<i64>)
    ensures
        r == match s {
            Some(t) => instante_lido(t@),
            None => None,
        },
{
    match s {
        Some(t) => ler_instante(t.as_str()),
        None => None,
    }
}

/// The instant of an optional timestamp; an unreadable one counts as absent.
pub open spec fn instante_de(s: Option<String>) -> Option<i64> {
    match s {
        Some(t) => instante_lido(t@),
        None => None,
    }
}

/// Joins a person with their presence row and works out whether they are out.
pub fn montar_presenca(
    id: String,
    nome: String,
    turma: String,
    ano: i64,
    entrada: &PresenceEntry,
) -> (r: PresencePerson)
    ensures
        r.id == id,
        r.nome == nome,
        r.turma == turma,
        r.ano == ano,
        r.ultima_saida == instante_de(entrada.ultima_saida),
        r.ultimo_retorno == instante_de(entrada.ultimo_retorno),
        r.usuario_saida == entrada.usuario_saida,
        r.usuario_retorno == entrada.usuario_retorno,
        r.esta_fora == fora(r.ultima_saida, r.ultimo_retorno),
{
    let saida = ler_opcional(&entrada.ultima_saida);
    let retorno = ler_opcional(&entrada.ultimo_retorno);
    let fora_agora = esta_fora(saida, retorno);
    PresencePerson {
        id,
        nome,
        turma,
        ano,
        ultima_saida: saida,
        ultimo_retorno: retorno,
        usuario_saida: crate::modelos::copia_opcao(&entrada.usuario_saida),
        usuario_retorno: crate::modelos::copia_opcao(&entrada.usuario_retorno),
        esta_fora: fora_agora,
    }
}

/// Number of people out.
pub open spec fn quantos_fora(ps: Seq<PresencePerson>) -> nat
    decreases ps.len(),
{
    if ps.len() == 0 {
        0
    } else {
        quantos_fora(ps.drop_last()) + if ps.last().esta_fora {
            1nat
        } else {
            0nat
        }
    }
}

pub fn calcular_stats(pessoas: &Vec<PresencePerson>) -> (r: PresenceStats)
    ensures
        r.fora == quantos_fora(pessoas@),
        r.total == pessoas@.len(),
        r.dentro == pessoas@.len() - quantos_fora(pessoas@),
{
    let mut fora_n: usize = 0;
    let mut i: usize = 0;
    while i < pessoas.len()
        invariant
            i <= pessoas@.len(),
            fora_n == quantos_fora(pessoas@.subrange(0, i as int)),
            fora_n <= i,
        decreases pessoas@.len() - i,
    {
        proof {
            assert(pessoas@.subrange(0, i + 1).drop_last() =~= pessoas@.subrange(0, i as int));
        }
        if pessoas[i].esta_fora {
            fora_n = fora_n + 1;
        }
        i = i + 1;
    }
    proof {
        assert(pessoas@.subrange(0, pessoas@.len() as int) =~= pessoas@);
    }
    let total = pessoas.len();
    PresenceStats { fora: fora_n, dentro: total - fora_n, total }
}

/// An account as the presence list reads it; its timestamps stay as stored text.
#[derive(Clone, Debug)]
pub struct User {
    pub id: String,
    pub password_hash: String,
    pub name: String,
    pub turma: String,
    pub ano: i64,
    pub curso: String,
    pub genero: String,
    pub updated_at: Option<String>,
    pub created_at: Option<String>,
}

/// Index of the presence row of a person, or -1.
pub open spec fn indice_entrada(es: Seq<PresenceEntry>, id: Seq<char>) -> int {
    primeiro_indice(es, |e: PresenceEntry| e.user_id@ == id)
}

/// A person joined with their presence row; with no row, nothing is marked.
pub open spec fn pessoa_de(u: User, es: Seq<PresenceEntry>) -> PresencePerson {
    let k = indice_entrada(es, u.id@);
    let saida = if k >= 0 {
        instante_de(es[k].ultima_saida)
    } else {
        None
    };
    let retorno = if k >= 0 {
        instante_de(es[k].ultimo_retorno)
    } else {
        None
    };
    PresencePerson {
        id: u.id,
        nome: u.name,
        turma: u.turma,
        ano: u.ano,
        ultima_saida: saida,
        ultimo_retorno: retorno,
        usuario_saida: if k >= 0 {
            es[k].usuario_saida
        } else {
            None
        },
        usuario_retorno: if k >= 0 {
            es[k].usuario_retorno
        } else {
            None
        },
        esta_fora: fora(saida, retorno),
    }
}

/// The people of year `turma`, in the order of `users`, joined with their rows.
pub open spec fn da_turma(users: Seq<User>, es: Seq<PresenceEntry>, turma: i64) -> Seq<PresencePerson>
    decreases users.len(),
{
    if users.len() == 0 {
        Seq::empty()
    } else {
        let r = da_turma(users.drop_last(), es, turma);
        if users.last().ano == turma {
            r.push(pessoa_de(users.last(), es))
        } else {
            r
        }
    }
}

/// Ordered by identifier.
pub open spec fn ordenada(ps: Seq<PresencePerson>) -> bool {
    forall|i: int, j: int| 0 <= i < j < ps.len() ==> !id_menor(#[trigger] ps[j].id@, #[trigger] ps[i].id@)
}

fn buscar_entrada(es: &Vec<PresenceEntry>, id: &String) -> (r: Option<usize>)
    ensures
        match r {
            Some(k) => indice_entrada(es@, id@) == k as int && k < es@.len(),
            None => indice_entrada(es@, id@) == -1,
        },
{
    let ghost f = |e: PresenceEntry| e.user_id@ == id@;
    let mut k: usize = 0;
    while k < es.len()
        invariant
            k <= es@.len(),
            f == (|e: PresenceEntry| e.user_id@ == id@),
            forall|j: int| 0 <= j < k ==> !f(es@[j]),
        decreases es@.len() - k,
    {
        if texto_igual(es[k].user_id.as_str(), id.as_str()) {
            proof {
                lemma_primeiro(es@, f, k as int);
            }
            return Some(k);
        }
        k = k + 1;
    }
    proof {
        lemma_nenhum(es@, f);
    }
    None
}

/// Orders people by identifier, keeping every one of them.
pub fn ordenar_por_id(v: Vec<PresencePerson>) -> (r: Vec<PresencePerson>)
    ensures
        r@.to_multiset() == v@.to_multiset(),
        ordenada(r@),
{
    broadcast use vstd::seq_lib::group_to_multiset_ensures;

    let ghost original = v@;
    let mut resto = v;
    let mut r: Vec<PresencePerson> = Vec::new();
    while resto.len() > 0
        invariant
            ordenada(r@),
            r@.to_multiset().add(resto@.to_multiset()) == original.to_multiset(),
        decreases resto@.len(),
    {
        let ghost antes = resto@;
        let x = resto.pop().unwrap();
        proof {
            assert(antes =~= resto@.push(x));
        }
        let mut p: usize = 0;
        while p < r.len() && !id_antes(&x.id, &r[p].id)
            invariant
                p <= r@.len(),
                antes == resto@.push(x),
                forall|i: int| 0 <= i < p ==> !id_menor(x.id@, #[trigger] r@[i].id@),
            decreases r@.len() - p,
        {
            p = p + 1;
        }
        let ghost velho = r@;
        r.insert(p, x);
        proof {
            assert(r@ == velho.insert(p as int, x));
            assert forall|i: int, j: int| 0 <= i < j < r@.len() implies !id_menor(
                #[trigger] r@[j].id@,
                #[trigger] r@[i].id@,
            ) by {
                if j < p {
                    assert(r@[i] == velho[i] && r@[j] == velho[j]);
                } else if j == p {
                    assert(r@[i] == velho[i]);
                } else if i < p {
                    assert(r@[i] == velho[i] && r@[j] == velho[j - 1]);
                } else if i == p {
                    assert(r@[j] == velho[j - 1]);
                    assert(id_menor(x.id@, velho[p as int].id@));
                    if id_menor(velho[j - 1].id@, x.id@) {
                        lemma_id_menor_transitivo(velho[j - 1].id@, x.id@, velho[p as int].id@);
                        if j - 1 > p {
                            assert(!id_menor(velho[j - 1].id@, velho[p as int].id@));
                        } else {
                            crate::selecao::lemma_id_menor_assimetrico(velho[p as int].id@, velho[p as int].id@);
                        }
                    }
                } else {
                    assert(r@[i] == velho[i - 1] && r@[j] == velho[j - 1]);
                }
            }
            vstd::seq_lib::to_multiset_insert(velho, p as int, x);
            vstd::seq_lib::to_multiset_build(resto@, x);
            assert(antes.to_multiset() =~= resto@.to_multiset().insert(x));
            assert(r@.to_multiset().add(resto@.to_multiset()) =~= velho.to_multiset().add(
                antes.to_multiset(),
            ));
        }
    }
    proof {
        assert(resto@.to_multiset() =~= vstd::multiset::Multiset::empty());
    }
    r
}

/// The presence list of year `turma_num`: its people joined with their presence rows,
/// ordered by identifier.
pub fn lista_presenca(users: &Vec<User>, entradas: &Vec<PresenceEntry>, turma_num: i64) -> (r: Vec<
    PresencePerson,
>)
    ensures
        r@.to_multiset() == da_turma(users@, entradas@, turma_num).to_multiset(),
        ordenada(r@),
{
    let mut juntas: Vec<PresencePerson> = Vec::new();
    let mut i: usize = 0;
    while i < users.len()
        invariant
            i <= users@.len(),
            juntas@ == da_turma(users@.subrange(0, i as int), entradas@, turma_num),
        decreases users@.len() - i,
    {
        proof {
            assert(users@.subrange(0, i + 1).drop_last() =~= users@.subrange(0, i as int));
        }
        let u = &users[i];
        if u.ano == turma_num {
            let vazia = PresenceEntry {
                user_id: String::new(),
                ultima_saida: None,
                ultimo_retorno: None,
                usuario_saida: None,
                usuario_retorno: None,
            };
            let k = buscar_entrada(entradas, &u.id);
            let e = match k {
                Some(k) => &entradas[k],
                None => &vazia,
            };
            let p = montar_presenca(u.id.clone(), u.name.clone(), u.turma.clone(), u.ano, e);
            proof {
                assert(p == pessoa_de(*u, entradas@));
            }
            juntas.push(p);
        }
        i = i + 1;
    }
    proof {
        assert(users@.subrange(0, users@.len() as int) =~= users@);
    }
    ordenar_por_id(juntas)
}

} // verus!
