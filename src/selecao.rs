use vstd::prelude::*;

use crate::modelos::{
    Alocacao, Candidato, Data, Indisponibilidade, Posto, TipoRotina, ano_aceito,
};
use crate::texto::texto_igual;

verus! {

/// The fairness counter of a person for a duty type.
pub open spec fn contador(c: Candidato, t: TipoRotina) -> i64 {
    match t {
        TipoRotina::RN => c.servicos_rn,
        TipoRotina::RD => c.servicos_rd,
    }
}

/// The person may fill the post by gender: equal gender, or a post open to both.
pub open spec fn genero_compativel(p: Posto, c: Candidato) -> bool {
    c.genero@ == p.genero_restricao@ || p.genero_restricao@ == "Misto"@
}

/// Some unavailability window of the person covers the day.
pub open spec fn indisponivel(ind: Seq<Indisponibilidade>, id: Seq<char>, d: int) -> bool {
    exists|k: int|
        0 <= k < ind.len() && (#[trigger] ind[k]).user_id@ == id && ind[k].data_inicio.dia <= d
            <= ind[k].data_fim.dia
}

/// Two days at most one day apart.
pub open spec fn proximos(a: int, b: int) -> bool {
    -1 <= a - b <= 1
}

/// The person holds an allocation, other than the one at index `excl`, within one day
/// of `d`.
pub open spec fn em_fadiga(alocs: Seq<Alocacao>, id: Seq<char>, d: int, excl: int) -> bool {
    exists|k: int|
        0 <= k < alocs.len() && k != excl && (#[trigger] alocs[k]).user_id@ == id && proximos(
            alocs[k].data.dia as int,
            d,
        )
}

/// The person may be placed on the post on day `d`.
pub open spec fn admissivel(
    c: Candidato,
    p: Posto,
    ind: Seq<Indisponibilidade>,
    alocs: Seq<Alocacao>,
    d: int,
) -> bool {
    &&& genero_compativel(p, c)
    &&& !indisponivel(ind, c.id@, d)
    &&& ano_aceito(p.turmas_permitidas@, c.ano as int)
    &&& !em_fadiga(alocs, c.id@, d, -1)
}

/// Lexicographic order of identifiers (a proper prefix comes first).
pub open spec fn id_menor(a: Seq<char>, b: Seq<char>) -> bool
    decreases a.len(),
{
    if a.len() == 0 {
        b.len() > 0
    } else if b.len() == 0 {
        false
    } else if a[0] != b[0] {
        (a[0] as u32) < (b[0] as u32)
    } else {
        id_menor(a.drop_first(), b.drop_first())
    }
}

/// Identifier order is irreflexive and asymmetric.
pub proof fn lemma_id_menor_assimetrico(a: Seq<char>, b: Seq<char>)
    ensures
        !id_menor(a, a),
        id_menor(a, b) ==> !id_menor(b, a),
    decreases a.len(),
{
    if a.len() > 0 && b.len() > 0 {
        lemma_id_menor_assimetrico(a.drop_first(), b.drop_first());
    } else if a.len() > 0 {
        lemma_id_menor_assimetrico(a.drop_first(), a.drop_first());
    }
}

/// Identifier order is transitive.
pub proof fn lemma_id_menor_transitivo(a: Seq<char>, b: Seq<char>, c: Seq<char>)
    requires
        id_menor(a, b),
        id_menor(b, c),
    ensures
        id_menor(a, c),
    decreases a.len(),
{
    if a.len() > 0 && a[0] == b[0] && b[0] == c[0] {
        lemma_id_menor_transitivo(a.drop_first(), b.drop_first(), c.drop_first());
    }
}

/// Of two different identifiers, one comes first.
pub proof fn lemma_id_menor_total(a: Seq<char>, b: Seq<char>)
    requires
        a != b,
    ensures
        id_menor(a, b) || id_menor(b, a),
    decreases a.len(),
{
    if a.len() > 0 && b.len() > 0 {
        if a[0] == b[0] {
            if a.drop_first() == b.drop_first() {
                assert(a =~= seq![a[0]] + a.drop_first());
                assert(b =~= seq![b[0]] + b.drop_first());
            }
            lemma_id_menor_total(a.drop_first(), b.drop_first());
        } else {
            vstd::utf8::char_u32_cast(a[0], a[0] as u32);
            vstd::utf8::char_u32_cast(b[0], b[0] as u32);
        }
    } else if a.len() == 0 && b.len() == 0 {
        assert(a =~= b);
    }
}

/// `a` ranks strictly before `b`: higher punishment balance, then lower counter of the
/// duty type, then lower identifier.
pub open spec fn antes(a: Candidato, b: Candidato, t: TipoRotina) -> bool {
    a.saldo_punicoes > b.saldo_punicoes || (a.saldo_punicoes == b.saldo_punicoes && (contador(a, t)
        < contador(b, t) || (contador(a, t) == contador(b, t) && id_menor(a.id@, b.id@))))
}

/// The best-ranked admissible person among the first `n`; on a full tie the earlier one.
pub open spec fn melhor(
    ps: Seq<Candidato>,
    n: int,
    p: Posto,
    ind: Seq<Indisponibilidade>,
    alocs: Seq<Alocacao>,
    d: int,
    t: TipoRotina,
) -> Option<int>
    decreases n,
{
    if n <= 0 {
        None
    } else {
        let m = melhor(ps, n - 1, p, ind, alocs, d, t);
        if admissivel(ps[n - 1], p, ind, alocs, d) && (m is None || antes(
            ps[n - 1],
            ps[m->0],
            t,
        )) {
            Some(n - 1)
        } else {
            m
        }
    }
}

/// The candidate chosen for a post: the best-ranked admissible person.
pub open spec fn escolhido(
    ps: Seq<Candidato>,
    p: Posto,
    ind: Seq<Indisponibilidade>,
    alocs: Seq<Alocacao>,
    d: int,
    t: TipoRotina,
) -> Option<int> {
    melhor(ps, ps.len() as int, p, ind, alocs, d, t)
}

pub fn contador_de(c: &Candidato, t: TipoRotina) -> (r: i64)
    ensures
        r == contador(*c, t),
{
    match t {
        TipoRotina::RN => c.servicos_rn,
        TipoRotina::RD => c.servicos_rd,
    }
}

pub fn genero_ok(p: &Posto, c: &Candidato) -> (r: bool)
    ensures
        r == genero_compativel(*p, *c),
{
    c.genero == p.genero_restricao || texto_igual(p.genero_restricao.as_str(), "Misto")
}

pub fn esta_indisponivel(ind: &Vec<Indisponibilidade>, id: &String, d: Data) -> (r: bool)
    ensures
        r == indisponivel(ind@, id@, d.dia as int),
{
    let mut k: usize = 0;
    while k < ind.len()
        invariant
            k <= ind@.len(),
            forall|j: int|
                0 <= j < k ==> !((#[trigger] ind@[j]).user_id@ == id@ && ind@[j].data_inicio.dia
                    <= d.dia <= ind@[j].data_fim.dia),
        decreases ind@.len() - k,
    {
        let w = &ind[k];
        if w.user_id == *id && w.data_inicio.dia <= d.dia && d.dia <= w.data_fim.dia {
            return true;
        }
        k = k + 1;
    }
    false
}

/// Whether the person holds an allocation, other than the one at `excl`, within one
/// day of `d`.
pub fn tem_fadiga(alocs: &Vec<Alocacao>, id: &String, d: Data, excl: Option<usize>) -> (r: bool)
    ensures
        r == em_fadiga(
            alocs@,
            id@,
            d.dia as int,
            match excl {
                Some(e) => e as int,
                None => -1,
            },
        ),
{
    let ghost ex: int = match excl {
        Some(e) => e as int,
        None => -1,
    };
    let mut k: usize = 0;
    while k < alocs.len()
        invariant
            k <= alocs@.len(),
            ex == match excl {
                Some(e) => e as int,
                None => -1,
            },
            forall|j: int|
                0 <= j < k ==> !(j != ex && (#[trigger] alocs@[j]).user_id@ == id@ && proximos(
                    alocs@[j].data.dia as int,
                    d.dia as int,
                )),
        decreases alocs@.len() - k,
    {
        let a = &alocs[k];
        let excluido = match excl {
            Some(e) => e == k,
            None => false,
        };
        let dif: i64 = (a.data.dia as i64) - (d.dia as i64);
        if !excluido && a.user_id == *id && -1 <= dif && dif <= 1 {
            return true;
        }
        k = k + 1;
    }
    false
}

/// Lexicographic comparison of two identifiers.
pub fn id_antes(a: &String, b: &String) -> (r: bool)
    ensures
        r == id_menor(a@, b@),
{
    let na = a.as_str().unicode_len();
    let nb = b.as_str().unicode_len();
    let mut i: usize = 0;
    proof {
        assert(a@.skip(0) =~= a@);
        assert(b@.skip(0) =~= b@);
    }
    while i < na && i < nb
        invariant
            na == a@.len(),
            nb == b@.len(),
            i <= na,
            i <= nb,
            id_menor(a@, b@) == id_menor(a@.skip(i as int), b@.skip(i as int)),
        decreases na - i,
    {
        let ca = a.as_str().get_char(i);
        let cb = b.as_str().get_char(i);
        proof {
            let sa = a@.skip(i as int);
            let sb = b@.skip(i as int);
            assert(sa[0] == ca);
            assert(sb[0] == cb);
            assert(sa.drop_first() =~= a@.skip(i + 1));
            assert(sb.drop_first() =~= b@.skip(i + 1));
        }
        if ca != cb {
            return (ca as u32) < (cb as u32);
        }
        i = i + 1;
    }
    i < nb && i == na
}

pub fn vem_antes(a: &Candidato, b: &Candidato, t: TipoRotina) -> (r: bool)
    ensures
        r == antes(*a, *b, t),
{
    if a.saldo_punicoes != b.saldo_punicoes {
        return a.saldo_punicoes > b.saldo_punicoes;
    }
    let ca = contador_de(a, t);
    let cb = contador_de(b, t);
    if ca != cb {
        return ca < cb;
    }
    id_antes(&a.id, &b.id)
}

pub fn pode_ocupar(
    c: &Candidato,
    p: &Posto,
    ind: &Vec<Indisponibilidade>,
    alocs: &Vec<Alocacao>,
    d: Data,
) -> (r: bool)
    ensures
        r == admissivel(*c, *p, ind@, alocs@, d.dia as int),
{
    genero_ok(p, c) && !esta_indisponivel(ind, &c.id, d) && p.aceita_ano(c.ano) && !tem_fadiga(
        alocs,
        &c.id,
        d,
        None,
    )
}

/// Picks the person for a post: the best-ranked one that is admissible.
pub fn escolher_candidato(
    ps: &Vec<Candidato>,
    p: &Posto,
    ind: &Vec<Indisponibilidade>,
    alocs: &Vec<Alocacao>,
    d: Data,
    t: TipoRotina,
) -> (r: Option<usize>)
    ensures
        match r {
            Some(i) => i < ps@.len() && escolhido(ps@, *p, ind@, alocs@, d.dia as int, t) == Some(
                i as int,
            ),
            None => escolhido(ps@, *p, ind@, alocs@, d.dia as int, t) is None,
        },
{
    let mut m: Option<usize> = None;
    let mut i: usize = 0;
    while i < ps.len()
        invariant
            i <= ps@.len(),
            match m {
                Some(x) => x < i && melhor(ps@, i as int, *p, ind@, alocs@, d.dia as int, t) == Some(
                    x as int,
                ),
                None => melhor(ps@, i as int, *p, ind@, alocs@, d.dia as int, t) is None,
            },
        decreases ps@.len() - i,
    {
        if pode_ocupar(&ps[i], p, ind, alocs, d) {
            let melhora = match m {
                None => true,
                Some(x) => vem_antes(&ps[i], &ps[x], t),
            };
            if melhora {
                m = Some(i);
            }
        }
        i = i + 1;
    }
    m
}

} // verus!
