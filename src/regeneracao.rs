use vstd::prelude::*;
use crate::busca::{lemma_nenhum, lemma_primeiro, lemma_primeiro_valido};
use crate::escala::{
    EstadoEscala, ajustar, alocar, campo, com_campo, desfazer, efeito, fora_do_dia, gerar_dia,
    indice_escala, indice_pessoa,
};
use crate::leis::{alocacoes_com_dia, lemma_fora_do_dia_contido, lemma_melhor_admissivel};
use crate::modelos::{Alocacao, Candidato, Data, Escala, Indisponibilidade, Posto, StatusEscala, TipoRotina};
use crate::selecao::{em_fadiga, escolhido, melhor, proximos};

verus! {

/// No two people share an identifier.
pub open spec fn pessoas_unicas(ps: Seq<Candidato>) -> bool {
    forall|i: int, j: int|
        0 <= i < ps.len() && 0 <= j < ps.len() && i != j ==> (#[trigger] ps[i]).id@ != (
        #[trigger] ps[j]).id@
}

/// Same people, by identifier, position for position.
pub open spec fn mesmos_ids(a: Seq<Candidato>, b: Seq<Candidato>) -> bool {
    a.len() == b.len() && forall|k: int| 0 <= k < a.len() ==> (#[trigger] a[k]).id@ == b[k].id@
}

/// Same holders and days, position for position; identifiers may differ.
pub open spec fn mesmas_linhas(a: Seq<Alocacao>, b: Seq<Alocacao>) -> bool {
    a.len() == b.len() && forall|k: int|
        0 <= k < a.len() ==> (#[trigger] a[k]).user_id@ == b[k].user_id@ && a[k].data == b[k].data
}

pub open spec fn nenhuma_do_dia(al: Seq<Alocacao>, d: int) -> bool {
    forall|k: int| 0 <= k < al.len() ==> (#[trigger] al[k]).data.dia != d
}

pub open spec fn todas_do_dia(al: Seq<Alocacao>, d: int) -> bool {
    forall|k: int| 0 <= k < al.len() ==> (#[trigger] al[k]).data.dia == d
}

proof fn lemma_indice_mesmos_ids(a: Seq<Candidato>, b: Seq<Candidato>, id: Seq<char>)
    requires
        mesmos_ids(a, b),
    ensures
        indice_pessoa(a, id) == indice_pessoa(b, id),
{
    let fa = |c: Candidato| c.id@ == id;
    lemma_primeiro_valido(a, fa);
    let k = indice_pessoa(a, id);
    if k >= 0 {
        assert forall|j: int| 0 <= j < k implies !fa(b[j]) by {
            assert(!fa(a[j]));
        }
        assert(fa(b[k]));
        lemma_primeiro(b, fa, k);
    } else {
        assert forall|j: int| 0 <= j < b.len() implies !fa(b[j]) by {
            assert(!fa(a[j]));
        }
        lemma_nenhum(b, fa);
    }
}

proof fn lemma_indice_unico(ps: Seq<Candidato>, m: int)
    requires
        pessoas_unicas(ps),
        0 <= m < ps.len(),
    ensures
        indice_pessoa(ps, ps[m].id@) == m,
{
    let f = |c: Candidato| c.id@ == ps[m].id@;
    assert forall|j: int| 0 <= j < m implies !f(ps[j]) by {
        assert(ps[j].id@ != ps[m].id@);
    }
    lemma_primeiro(ps, f, m);
}

proof fn lemma_ajustar_ids(ps: Seq<Candidato>, id: Seq<char>, pun: bool, t: TipoRotina, delta: int)
    requires
        ajustar(ps, id, pun, t, delta) is Some,
    ensures
        mesmos_ids(ajustar(ps, id, pun, t, delta)->0, ps),
        forall|k: int|
            0 <= k < ps.len() && k != indice_pessoa(ps, id) ==> (#[trigger] ajustar(
                ps,
                id,
                pun,
                t,
                delta,
            )->0[k]) == ps[k],
{
    lemma_primeiro_valido(ps, |c: Candidato| c.id@ == id);
}

proof fn lemma_desfazer_ids(ps: Seq<Candidato>, al: Seq<Alocacao>, d: int, t: TipoRotina)
    requires
        desfazer(ps, al, d, t) is Some,
    ensures
        mesmos_ids(desfazer(ps, al, d, t)->0, ps),
    decreases al.len(),
{
    if al.len() > 0 {
        lemma_desfazer_ids(ps, al.drop_last(), d, t);
        let q = desfazer(ps, al.drop_last(), d, t)->0;
        let a = al.last();
        if a.data.dia == d {
            lemma_ajustar_ids(q, a.user_id@, a.is_punicao, t, -efeito(a.is_punicao));
        }
    }
}

proof fn lemma_desfazer_concat(ps: Seq<Candidato>, x: Seq<Alocacao>, y: Seq<Alocacao>, d: int, t: TipoRotina)
    ensures
        desfazer(ps, x + y, d, t) == match desfazer(ps, x, d, t) {
            None => None,
            Some(q) => desfazer(q, y, d, t),
        },
    decreases y.len(),
{
    if y.len() == 0 {
        assert(x + y =~= x);
    } else {
        assert((x + y).drop_last() =~= x + y.drop_last());
        assert((x + y).last() == y.last());
        lemma_desfazer_concat(ps, x, y.drop_last(), d, t);
    }
}

proof fn lemma_desfazer_nada(ps: Seq<Candidato>, x: Seq<Alocacao>, d: int, t: TipoRotina)
    requires
        nenhuma_do_dia(x, d),
    ensures
        desfazer(ps, x, d, t) == Some(ps),
    decreases x.len(),
{
    if x.len() > 0 {
        assert(x.last() == x[x.len() - 1]);
        lemma_desfazer_nada(ps, x.drop_last(), d, t);
    }
}

proof fn lemma_com_campo(c: Candidato, pun: bool, t: TipoRotina, v: i64, w: i64)
    ensures
        com_campo(com_campo(c, pun, t, v), pun, t, w) == com_campo(c, pun, t, w),
        com_campo(c, pun, t, campo(c, pun, t)) == c,
        campo(com_campo(c, pun, t, v), pun, t) == v,
        com_campo(c, pun, t, v).id == c.id,
{
}

/// Undoing allocations that do not touch person `i` commutes with changing person `i`.
proof fn lemma_desfazer_moldura(
    p: Seq<Candidato>,
    q: Seq<Candidato>,
    n: Seq<Alocacao>,
    d: int,
    t: TipoRotina,
    i: int,
    v: Candidato,
)
    requires
        0 <= i < p.len(),
        v.id@ == p[i].id@,
        desfazer(p, n, d, t) == Some(q),
        forall|k: int|
            0 <= k < n.len() && (#[trigger] n[k]).data.dia == d ==> indice_pessoa(p, n[k].user_id@)
                != i,
    ensures
        desfazer(p.update(i, v), n, d, t) == Some(q.update(i, v)),
    decreases n.len(),
{
    if n.len() == 0 {
    } else {
        let nd = n.drop_last();
        let x = n.last();
        assert(x == n[n.len() - 1]);
        let q0 = desfazer(p, nd, d, t)->0;
        assert forall|k: int|
            0 <= k < nd.len() && (#[trigger] nd[k]).data.dia == d implies indice_pessoa(
            p,
            nd[k].user_id@,
        ) != i by {
            assert(nd[k] == n[k]);
        }
        lemma_desfazer_moldura(p, q0, nd, d, t, i, v);
        if x.data.dia == d {
            lemma_desfazer_ids(p, nd, d, t);
            assert(mesmos_ids(q0.update(i, v), q0));
            lemma_indice_mesmos_ids(q0.update(i, v), q0, x.user_id@);
            lemma_indice_mesmos_ids(q0, p, x.user_id@);
            let j = indice_pessoa(q0, x.user_id@);
            lemma_primeiro_valido(q0, |c: Candidato| c.id@ == x.user_id@);
            if j >= 0 {
                assert(q0.update(i, v)[j] == q0[j]);
                let w = com_campo(q0[j], x.is_punicao, t, (campo(q0[j], x.is_punicao, t) - efeito(
                    x.is_punicao,
                )) as i64);
                assert(q0.update(i, v).update(j, w) =~= q0.update(j, w).update(i, v));
            }
        }
    }
}

/// Filling the posts from `p0`, then undoing the new allocations, gives `p0` back.
proof fn lemma_alocar_inverso(
    p0: Seq<Candidato>,
    r: Seq<Alocacao>,
    postos: Seq<Posto>,
    ind: Seq<Indisponibilidade>,
    d: Data,
    t: TipoRotina,
    ids: Seq<String>,
)
    requires
        pessoas_unicas(p0),
        nenhuma_do_dia(r, d.dia as int),
        alocar(p0, r, postos, ind, d, t, ids) is Ok,
    ensures
        ({
            let (p, a) = alocar(p0, r, postos, ind, d, t, ids)->Ok_0;
            let n = a.skip(r.len() as int);
            &&& r.len() <= a.len()
            &&& a.subrange(0, r.len() as int) == r
            &&& todas_do_dia(n, d.dia as int)
            &&& desfazer(p, n, d.dia as int, t) == Some(p0)
            &&& mesmos_ids(p, p0)
            &&& forall|m: int|
                0 <= m < p0.len() && (forall|k: int|
                    0 <= k < n.len() ==> (#[trigger] n[k]).user_id@ != p0[m].id@) ==> #[trigger] p[m]
                    == p0[m]
        }),
    decreases postos.len(),
{
    let dd = d.dia as int;
    if postos.len() == 0 {
        assert(r.subrange(0, r.len() as int) =~= r);
        assert(r.skip(r.len() as int).len() == 0);
    } else {
        let pre = postos.drop_last();
        lemma_alocar_inverso(p0, r, pre, ind, d, t, ids);
        let (pk, ak) = alocar(p0, r, pre, ind, d, t, ids)->Ok_0;
        let nk = ak.skip(r.len() as int);
        let posto = postos.last();
        lemma_melhor_admissivel(pk, pk.len() as int, posto, ind, ak, dd, t);
        let i = escolhido(pk, posto, ind, ak, dd, t)->0;
        let c = pk[i];
        let pun = c.saldo_punicoes > 0;
        let (p1, a1) = alocar(p0, r, postos, ind, d, t, ids)->Ok_0;
        let n1 = a1.skip(r.len() as int);
        let x = a1.last();
        assert(a1 == ak.push(x));
        assert(n1 =~= nk.push(x));
        assert(a1.subrange(0, r.len() as int) =~= ak.subrange(0, r.len() as int));
        // the chosen person has no allocation on the day yet
        assert(!em_fadiga(ak, c.id@, dd, -1));
        assert forall|k: int| 0 <= k < nk.len() implies (#[trigger] nk[k]).user_id@ != c.id@ by {
            assert(nk[k] == ak[r.len() + k]);
            assert(nk[k].data.dia == dd);
            assert(proximos(ak[r.len() + k].data.dia as int, dd));
        }
        // pk has unique identifiers
        assert(pessoas_unicas(pk)) by {
            assert forall|a: int, b: int|
                0 <= a < pk.len() && 0 <= b < pk.len() && a != b implies (#[trigger] pk[a]).id@
                != (#[trigger] pk[b]).id@ by {
                assert(pk[a].id@ == p0[a].id@ && pk[b].id@ == p0[b].id@);
            }
        }
        lemma_indice_unico(pk, i);
        let v = com_campo(c, pun, t, (campo(c, pun, t) + efeito(pun)) as i64);
        assert(p1 == pk.update(i, v));
        // undoing the earlier allocations does not touch person i
        assert forall|k: int|
            0 <= k < nk.len() && (#[trigger] nk[k]).data.dia == dd implies indice_pessoa(
            pk,
            nk[k].user_id@,
        ) != i by {
            lemma_primeiro_valido(pk, |cc: Candidato| cc.id@ == nk[k].user_id@);
        }
        lemma_desfazer_moldura(pk, p0, nk, dd, t, i, v);
        // person i was untouched so far
        assert(p0[i].id@ == c.id@);
        assert(pk[i] == p0[i]);
        let q = p0.update(i, v);
        assert(mesmos_ids(q, pk));
        lemma_indice_mesmos_ids(q, pk, c.id@);
        lemma_com_campo(c, pun, t, campo_apos(c, pun, t), campo(c, pun, t));
        assert(q.update(i, c) =~= p0);
        assert(n1.drop_last() =~= nk);
        assert(n1.last() == x);
        assert forall|k: int| 0 <= k < n1.len() implies (#[trigger] n1[k]).data.dia == dd by {
            if k < nk.len() {
                assert(n1[k] == nk[k]);
            }
        }
        assert forall|m: int|
            0 <= m < p0.len() && (forall|k: int|
                0 <= k < n1.len() ==> (#[trigger] n1[k]).user_id@ != p0[m].id@) implies #[trigger] p1[m]
            == p0[m] by {
            assert(n1[nk.len() as int] == x);
            assert forall|k: int| 0 <= k < nk.len() implies (#[trigger] nk[k]).user_id@ != p0[m].id@ by {
                assert(n1[k] == nk[k]);
            }
        }
    }
}

/// The field after placing a duty, when it fits.
spec fn campo_apos(c: Candidato, pun: bool, t: TipoRotina) -> i64 {
    (campo(c, pun, t) + efeito(pun)) as i64
}

proof fn lemma_fadiga_linhas(a: Seq<Alocacao>, b: Seq<Alocacao>, id: Seq<char>, d: int)
    requires
        mesmas_linhas(a, b),
    ensures
        em_fadiga(a, id, d, -1) == em_fadiga(b, id, d, -1),
{
    if em_fadiga(a, id, d, -1) {
        let k = choose|k: int|
            0 <= k < a.len() && k != -1 && (#[trigger] a[k]).user_id@ == id && proximos(
                a[k].data.dia as int,
                d,
            );
        assert(b[k].user_id@ == id);
    }
    if em_fadiga(b, id, d, -1) {
        let k = choose|k: int|
            0 <= k < b.len() && k != -1 && (#[trigger] b[k]).user_id@ == id && proximos(
                b[k].data.dia as int,
                d,
            );
        assert(a[k].user_id@ == id);
    }
}

proof fn lemma_melhor_linhas(
    ps: Seq<Candidato>,
    n: int,
    p: Posto,
    ind: Seq<Indisponibilidade>,
    a: Seq<Alocacao>,
    b: Seq<Alocacao>,
    d: int,
    t: TipoRotina,
)
    requires
        mesmas_linhas(a, b),
    ensures
        melhor(ps, n, p, ind, a, d, t) == melhor(ps, n, p, ind, b, d, t),
    decreases n,
{
    if n > 0 {
        lemma_melhor_linhas(ps, n - 1, p, ind, a, b, d, t);
        lemma_fadiga_linhas(a, b, ps[n - 1].id@, d);
    }
}

/// Filling the posts does not depend on the identifiers of the allocations.
proof fn lemma_alocar_linhas(
    ps: Seq<Candidato>,
    a: Seq<Alocacao>,
    b: Seq<Alocacao>,
    postos: Seq<Posto>,
    ind: Seq<Indisponibilidade>,
    d: Data,
    t: TipoRotina,
    ids1: Seq<String>,
    ids2: Seq<String>,
)
    requires
        mesmas_linhas(a, b),
    ensures
        alocar(ps, a, postos, ind, d, t, ids1) is Ok <==> alocar(ps, b, postos, ind, d, t, ids2) is Ok,
        alocar(ps, a, postos, ind, d, t, ids1) is Ok ==> alocar(ps, a, postos, ind, d, t, ids1)->Ok_0.0
            == alocar(ps, b, postos, ind, d, t, ids2)->Ok_0.0 && mesmas_linhas(
            alocar(ps, a, postos, ind, d, t, ids1)->Ok_0.1,
            alocar(ps, b, postos, ind, d, t, ids2)->Ok_0.1,
        ),
    decreases postos.len(),
{
    if postos.len() > 0 {
        let pre = postos.drop_last();
        lemma_alocar_linhas(ps, a, b, pre, ind, d, t, ids1, ids2);
        let ra = alocar(ps, a, pre, ind, d, t, ids1);
        let rb = alocar(ps, b, pre, ind, d, t, ids2);
        if ra is Ok {
            let p1 = ra->Ok_0.0;
            lemma_melhor_linhas(p1, p1.len() as int, postos.last(), ind, ra->Ok_0.1, rb->Ok_0.1, d.dia as int, t);
            let fa = alocar(ps, a, postos, ind, d, t, ids1);
            let fb = alocar(ps, b, postos, ind, d, t, ids2);
            if fa is Ok {
                let la = fa->Ok_0.1;
                let lb = fb->Ok_0.1;
                assert forall|k: int| 0 <= k < la.len() implies (#[trigger] la[k]).user_id@ == lb[k].user_id@
                    && la[k].data == lb[k].data by {
                    if k < la.len() - 1 {
                        assert(la[k] == ra->Ok_0.1[k]);
                        assert(lb[k] == rb->Ok_0.1[k]);
                    }
                }
            }
        }
    }
}

proof fn lemma_fora_nada(r: Seq<Alocacao>, d: int)
    requires
        nenhuma_do_dia(r, d),
    ensures
        fora_do_dia(r, d) == r,
    decreases r.len(),
{
    if r.len() > 0 {
        assert(r.last() == r[r.len() - 1]);
        lemma_fora_nada(r.drop_last(), d);
        assert(r.drop_last().push(r.last()) =~= r);
    }
}

proof fn lemma_fora_sem_dia(al: Seq<Alocacao>, d: int)
    ensures
        nenhuma_do_dia(fora_do_dia(al, d), d),
    decreases al.len(),
{
    if al.len() > 0 {
        lemma_fora_sem_dia(al.drop_last(), d);
    }
}

proof fn lemma_fora_prefixo(a: Seq<Alocacao>, r: Seq<Alocacao>, d: int)
    requires
        r.len() <= a.len(),
        a.subrange(0, r.len() as int) == r,
        nenhuma_do_dia(r, d),
        todas_do_dia(a.skip(r.len() as int), d),
    ensures
        fora_do_dia(a, d) == r,
    decreases a.len(),
{
    if a.len() == r.len() {
        assert(a =~= r);
        lemma_fora_nada(r, d);
    } else {
        let p = a.drop_last();
        assert(p.subrange(0, r.len() as int) =~= a.subrange(0, r.len() as int));
        assert forall|k: int| 0 <= k < p.skip(r.len() as int).len() implies (#[trigger] p.skip(
            r.len() as int,
        )[k]).data.dia == d by {
            assert(p.skip(r.len() as int)[k] == a.skip(r.len() as int)[k]);
        }
        lemma_fora_prefixo(p, r, d);
        assert(a.last() == a.skip(r.len() as int)[a.len() - 1 - r.len()]);
    }
}

/// Where the header of day `d` stands after a generation wrote it.
proof fn lemma_cabecalho(es: Seq<Escala>, d: int, cab: Escala)
    requires
        cab.data.dia == d,
        indice_escala(es, d) < 0 || es[indice_escala(es, d)].status != StatusEscala::Publicada,
    ensures
        ({
            let h = indice_escala(es, d);
            let e1 = if h >= 0 {
                es.update(h, cab)
            } else {
                es.push(cab)
            };
            let h1 = indice_escala(e1, d);
            &&& 0 <= h1 < e1.len()
            &&& e1[h1] == cab
        }),
{
    let f = |e: Escala| e.data.dia == d;
    lemma_primeiro_valido(es, f);
    let h = indice_escala(es, d);
    if h >= 0 {
        let e1 = es.update(h, cab);
        assert forall|j: int| 0 <= j < h implies !f(e1[j]) by {
            assert(e1[j] == es[j]);
        }
        lemma_primeiro(e1, f, h);
    } else {
        let e1 = es.push(cab);
        assert forall|j: int| 0 <= j < es.len() implies !f(e1[j]) by {
            assert(e1[j] == es[j]);
        }
        lemma_primeiro(e1, f, es.len() as int);
    }
}

/// Regenerating a draft day leaves every fairness counter and punishment balance as
/// the first generation left them: the regeneration undoes exactly what the first one
/// did, then chooses the same people again.
pub proof fn lei_regenerar_rascunho(
    s: EstadoEscala,
    d: Data,
    t: TipoRotina,
    ids1: Seq<String>,
    ids2: Seq<String>,
)
    requires
        alocacoes_com_dia(s),
        pessoas_unicas(s.pessoas),
        gerar_dia(s, d, t, ids1) is Ok,
    ensures
        gerar_dia(gerar_dia(s, d, t, ids1)->Ok_0, d, t, ids2) is Ok,
        gerar_dia(gerar_dia(s, d, t, ids1)->Ok_0, d, t, ids2)->Ok_0.pessoas == gerar_dia(
            s,
            d,
            t,
            ids1,
        )->Ok_0.pessoas,
{
    reveal(gerar_dia);
    let dd = d.dia as int;
    let h0 = indice_escala(s.escalas, dd);
    let r = if h0 >= 0 {
        fora_do_dia(s.alocacoes, dd)
    } else {
        s.alocacoes
    };
    let p0 = if h0 >= 0 {
        desfazer(s.pessoas, s.alocacoes, dd, s.escalas[h0].tipo)->0
    } else {
        s.pessoas
    };
    if h0 >= 0 {
        lemma_fora_sem_dia(s.alocacoes, dd);
        lemma_desfazer_ids(s.pessoas, s.alocacoes, dd, s.escalas[h0].tipo);
        assert forall|a: int, b: int|
            0 <= a < p0.len() && 0 <= b < p0.len() && a != b implies (#[trigger] p0[a]).id@ != (
            #[trigger] p0[b]).id@ by {
            assert(p0[a].id@ == s.pessoas[a].id@ && p0[b].id@ == s.pessoas[b].id@);
        }
    } else {
        assert forall|k: int| 0 <= k < r.len() implies (#[trigger] r[k]).data.dia != dd by {
            assert(indice_escala(s.escalas, s.alocacoes[k].data.dia as int) >= 0);
        }
    }
    let cab = Escala { data: d, tipo: t, status: StatusEscala::Rascunho };
    lemma_cabecalho(s.escalas, dd, cab);
    lemma_alocar_inverso(p0, r, s.postos, s.indisponibilidades, d, t, ids1);
    let (p1, a1) = alocar(p0, r, s.postos, s.indisponibilidades, d, t, ids1)->Ok_0;
    let n = a1.skip(r.len() as int);
    assert(a1 =~= r + n);
    lemma_desfazer_concat(p1, r, n, dd, t);
    lemma_desfazer_nada(p1, r, dd, t);
    lemma_fora_prefixo(a1, r, dd);
    lemma_alocar_linhas(p0, r, r, s.postos, s.indisponibilidades, d, t, ids1, ids2);
}

/// A day with a header keeps one after another header is written.
proof fn lemma_dia_com_cabecalho(es: Seq<Escala>, e1: Seq<Escala>, x: int)
    requires
        indice_escala(es, x) >= 0,
        es.len() <= e1.len(),
        forall|j: int| 0 <= j < es.len() ==> (#[trigger] e1[j]).data.dia == es[j].data.dia,
    ensures
        indice_escala(e1, x) >= 0,
{
    let f = |e: Escala| e.data.dia == x;
    lemma_primeiro_valido(es, f);
    lemma_primeiro_valido(e1, f);
    let j = indice_escala(es, x);
    assert(f(e1[j]));
}

/// A generation keeps the store valid: every allocation lies on a day with a header,
/// and no two people share an identifier.
pub proof fn lei_geracao_preserva_validade(s: EstadoEscala, d: Data, t: TipoRotina, ids: Seq<String>)
    requires
        alocacoes_com_dia(s),
        pessoas_unicas(s.pessoas),
        gerar_dia(s, d, t, ids) is Ok,
    ensures
        alocacoes_com_dia(gerar_dia(s, d, t, ids)->Ok_0),
        pessoas_unicas(gerar_dia(s, d, t, ids)->Ok_0.pessoas),
{
    reveal(gerar_dia);
    let dd = d.dia as int;
    let h0 = indice_escala(s.escalas, dd);
    let r = if h0 >= 0 {
        fora_do_dia(s.alocacoes, dd)
    } else {
        s.alocacoes
    };
    let p0 = if h0 >= 0 {
        desfazer(s.pessoas, s.alocacoes, dd, s.escalas[h0].tipo)->0
    } else {
        s.pessoas
    };
    if h0 >= 0 {
        lemma_fora_sem_dia(s.alocacoes, dd);
        lemma_fora_do_dia_contido(s.alocacoes, dd);
        lemma_desfazer_ids(s.pessoas, s.alocacoes, dd, s.escalas[h0].tipo);
    } else {
        assert forall|k: int| 0 <= k < r.len() implies (#[trigger] r[k]).data.dia != dd by {
            assert(indice_escala(s.escalas, s.alocacoes[k].data.dia as int) >= 0);
        }
    }
    assert forall|a: int, b: int|
        0 <= a < p0.len() && 0 <= b < p0.len() && a != b implies (#[trigger] p0[a]).id@ != (
        #[trigger] p0[b]).id@ by {
        assert(p0[a].id@ == s.pessoas[a].id@ && p0[b].id@ == s.pessoas[b].id@);
    }
    let cab = Escala { data: d, tipo: t, status: StatusEscala::Rascunho };
    lemma_cabecalho(s.escalas, dd, cab);
    lemma_alocar_inverso(p0, r, s.postos, s.indisponibilidades, d, t, ids);
    let (p1, a1) = alocar(p0, r, s.postos, s.indisponibilidades, d, t, ids)->Ok_0;
    let n = a1.skip(r.len() as int);
    let s1 = gerar_dia(s, d, t, ids)->Ok_0;
    let e1 = s1.escalas;
    assert forall|j: int| 0 <= j < s.escalas.len() implies (#[trigger] e1[j]).data.dia
        == s.escalas[j].data.dia by {
        if h0 >= 0 && j == h0 {
            lemma_primeiro_valido(s.escalas, |e: Escala| e.data.dia == dd);
        }
    }
    assert forall|k: int| 0 <= k < a1.len() implies indice_escala(
        e1,
        (#[trigger] a1[k]).data.dia as int,
    ) >= 0 by {
        if k < r.len() {
            assert(a1[k] == r[k]);
            if h0 >= 0 {
                let i = choose|i: int|
                    0 <= i < s.alocacoes.len() && s.alocacoes[i] == #[trigger] fora_do_dia(
                        s.alocacoes,
                        dd,
                    )[k];
                assert(indice_escala(s.escalas, s.alocacoes[i].data.dia as int) >= 0);
            } else {
                assert(indice_escala(s.escalas, s.alocacoes[k].data.dia as int) >= 0);
            }
            lemma_dia_com_cabecalho(s.escalas, e1, a1[k].data.dia as int);
        } else {
            assert(a1[k] == n[k - r.len()]);
            lemma_primeiro_valido(e1, |e: Escala| e.data.dia == dd);
        }
    }
    assert forall|a: int, b: int|
        0 <= a < p1.len() && 0 <= b < p1.len() && a != b implies (#[trigger] p1[a]).id@ != (
        #[trigger] p1[b]).id@ by {
        assert(p1[a].id@ == p0[a].id@ && p1[b].id@ == p0[b].id@);
    }
}

/// Generating a draft day and then regenerating it twice leaves every fairness counter
/// and punishment balance as the single generation left them.
pub proof fn lei_regenerar_duas_vezes(
    s: EstadoEscala,
    d: Data,
    t: TipoRotina,
    ids1: Seq<String>,
    ids2: Seq<String>,
    ids3: Seq<String>,
)
    requires
        alocacoes_com_dia(s),
        pessoas_unicas(s.pessoas),
        gerar_dia(s, d, t, ids1) is Ok,
    ensures
        ({
            let s1 = gerar_dia(s, d, t, ids1)->Ok_0;
            let s2 = gerar_dia(s1, d, t, ids2)->Ok_0;
            &&& gerar_dia(s1, d, t, ids2) is Ok
            &&& gerar_dia(s2, d, t, ids3) is Ok
            &&& s2.pessoas == s1.pessoas
            &&& gerar_dia(s2, d, t, ids3)->Ok_0.pessoas == s1.pessoas
        }),
{
    let s1 = gerar_dia(s, d, t, ids1)->Ok_0;
    lei_regenerar_rascunho(s, d, t, ids1, ids2);
    lei_geracao_preserva_validade(s, d, t, ids1);
    lei_regenerar_rascunho(s1, d, t, ids2, ids3);
}

} // verus!
