use vstd::prelude::*;
use crate::busca::{lemma_primeiro, lemma_primeiro_valido};
use crate::escala::{EstadoEscala, alocar, fora_do_dia, gerar_dia, indice_escala};
use crate::modelos::{
    Alocacao, Candidato, Data, ErroEscala, Escala, Indisponibilidade, Posto, StatusEscala, TipoRotina,
};
use crate::publicacao::{publicacao, publicar_um, rascunhos_em};
use crate::selecao::{admissivel, em_fadiga, escolhido, melhor, proximos};
use crate::troca::{aprovada, indice_alocacao, indice_troca_aberta, recusa_aprovacao};

verus! {

/// No two headers share a date.
pub open spec fn datas_unicas(es: Seq<Escala>) -> bool {
    forall|i: int, j: int|
        0 <= i < es.len() && 0 <= j < es.len() && i != j ==> (#[trigger] es[i]).data.dia != (
        #[trigger] es[j]).data.dia
}

/// No person holds two allocations within one day of each other.
pub open spec fn sem_conflitos(al: Seq<Alocacao>) -> bool {
    forall|i: int, j: int|
        0 <= i < al.len() && 0 <= j < al.len() && i != j && (#[trigger] al[i]).user_id@ == (
        #[trigger] al[j]).user_id@ ==> !proximos(al[i].data.dia as int, al[j].data.dia as int)
}

/// The allocations of day `d`, in order.
pub open spec fn do_dia(al: Seq<Alocacao>, d: int) -> Seq<Alocacao>
    decreases al.len(),
{
    if al.len() == 0 {
        al
    } else {
        let r = do_dia(al.drop_last(), d);
        if al.last().data.dia == d {
            r.push(al.last())
        } else {
            r
        }
    }
}

/// Regenerating a published day fails with the "already published" error; the
/// generation then leaves the store as it was.
pub proof fn lei_publicada_nao_se_regenera(
    s: EstadoEscala,
    d: Data,
    t: TipoRotina,
    ids: Seq<String>,
    h: int,
)
    requires
        datas_unicas(s.escalas),
        0 <= h < s.escalas.len(),
        s.escalas[h].data == d,
        s.escalas[h].status == StatusEscala::Publicada,
    ensures
        gerar_dia(s, d, t, ids) == Err::<EstadoEscala, ErroEscala>(ErroEscala::JaPublicada(d)),
{
    reveal(gerar_dia);
    let f = |e: Escala| e.data.dia == d.dia as int;
    assert forall|j: int| 0 <= j < h implies !f(s.escalas[j]) by {
        assert(s.escalas[j].data.dia != s.escalas[h].data.dia);
    }
    lemma_primeiro(s.escalas, f, h);
}

/// With no draft day in `[a, b]`, there is nothing to publish and publishing changes
/// nothing.
pub proof fn lei_nada_para_publicar(s: EstadoEscala, a: int, b: int)
    requires
        forall|k: int|
            0 <= k < s.escalas.len() ==> !(a <= (#[trigger] s.escalas[k]).data.dia <= b
                && s.escalas[k].status == StatusEscala::Rascunho),
    ensures
        rascunhos_em(s.escalas, a, b) == 0,
        publicacao(s, a, b) == s,
{
    lemma_sem_rascunhos(s.escalas, a, b);
    assert(s.escalas.map_values(|e: Escala| publicar_um(e, a, b)) =~= s.escalas);
}

proof fn lemma_sem_rascunhos(es: Seq<Escala>, a: int, b: int)
    requires
        forall|k: int|
            0 <= k < es.len() ==> !(a <= (#[trigger] es[k]).data.dia <= b && es[k].status
                == StatusEscala::Rascunho),
    ensures
        rascunhos_em(es, a, b) == 0,
    decreases es.len(),
{
    if es.len() > 0 {
        let p = es.drop_last();
        assert forall|k: int|
            0 <= k < p.len() implies !(a <= (#[trigger] p[k]).data.dia <= b && p[k].status
            == StatusEscala::Rascunho) by {
            assert(p[k] == es[k]);
        }
        lemma_sem_rascunhos(p, a, b);
        assert(es.last() == es[es.len() - 1]);
    }
}

/// The chosen person is admissible.
pub proof fn lemma_melhor_admissivel(
    ps: Seq<Candidato>,
    n: int,
    p: Posto,
    ind: Seq<Indisponibilidade>,
    al: Seq<Alocacao>,
    d: int,
    t: TipoRotina,
)
    requires
        n <= ps.len(),
    ensures
        melhor(ps, n, p, ind, al, d, t) is Some ==> 0 <= melhor(ps, n, p, ind, al, d, t)->0 < n
            && admissivel(ps[melhor(ps, n, p, ind, al, d, t)->0], p, ind, al, d),
    decreases n,
{
    if n > 0 {
        lemma_melhor_admissivel(ps, n - 1, p, ind, al, d, t);
    }
}

/// Every allocation left after removing day `d` was an allocation of another day.
pub proof fn lemma_fora_do_dia_contido(al: Seq<Alocacao>, d: int)
    ensures
        forall|k: int|
            0 <= k < fora_do_dia(al, d).len() ==> exists|i: int|
                0 <= i < al.len() && al[i] == #[trigger] fora_do_dia(al, d)[k],
    decreases al.len(),
{
    if al.len() > 0 {
        let p = al.drop_last();
        lemma_fora_do_dia_contido(p, d);
        let r = fora_do_dia(al, d);
        assert forall|k: int| 0 <= k < r.len() implies exists|i: int|
            0 <= i < al.len() && al[i] == #[trigger] r[k] by {
            if k < fora_do_dia(p, d).len() {
                let i = choose|i: int| 0 <= i < p.len() && p[i] == fora_do_dia(p, d)[k];
                assert(al[i] == r[k]);
            } else {
                assert(al[al.len() - 1] == r[k]);
            }
        }
    }
}

proof fn lemma_fora_do_dia_sem_conflitos(al: Seq<Alocacao>, d: int)
    requires
        sem_conflitos(al),
    ensures
        sem_conflitos(fora_do_dia(al, d)),
    decreases al.len(),
{
    if al.len() > 0 {
        let p = al.drop_last();
        assert forall|i: int, j: int|
            0 <= i < p.len() && 0 <= j < p.len() && i != j && (#[trigger] p[i]).user_id@ == (
            #[trigger] p[j]).user_id@ implies !proximos(p[i].data.dia as int, p[j].data.dia as int) by {
            assert(al[i] == p[i] && al[j] == p[j]);
        }
        lemma_fora_do_dia_sem_conflitos(p, d);
        lemma_fora_do_dia_contido(p, d);
        let rp = fora_do_dia(p, d);
        let r = fora_do_dia(al, d);
        if al.last().data.dia != d {
            let x = al.last();
            assert forall|i: int, j: int|
                0 <= i < r.len() && 0 <= j < r.len() && i != j && (#[trigger] r[i]).user_id@ == (
                #[trigger] r[j]).user_id@ implies !proximos(r[i].data.dia as int, r[j].data.dia as int) by {
                if i < rp.len() && j < rp.len() {
                    assert(r[i] == rp[i] && r[j] == rp[j]);
                } else if i < rp.len() {
                    let i0 = choose|i0: int| 0 <= i0 < p.len() && p[i0] == #[trigger] rp[i];
                    assert(al[i0] == r[i]);
                    assert(al[al.len() - 1] == r[j]);
                } else {
                    let j0 = choose|j0: int| 0 <= j0 < p.len() && p[j0] == #[trigger] rp[j];
                    assert(al[j0] == r[j]);
                    assert(al[al.len() - 1] == r[i]);
                }
            }
        }
    }
}

proof fn lemma_alocar_sem_conflitos(
    ps: Seq<Candidato>,
    al: Seq<Alocacao>,
    postos: Seq<Posto>,
    ind: Seq<Indisponibilidade>,
    d: Data,
    t: TipoRotina,
    ids: Seq<String>,
)
    requires
        sem_conflitos(al),
        alocar(ps, al, postos, ind, d, t, ids) is Ok,
    ensures
        sem_conflitos(alocar(ps, al, postos, ind, d, t, ids)->Ok_0.1),
    decreases postos.len(),
{
    if postos.len() > 0 {
        let anterior = alocar(ps, al, postos.drop_last(), ind, d, t, ids);
        lemma_alocar_sem_conflitos(ps, al, postos.drop_last(), ind, d, t, ids);
        let p1 = anterior->Ok_0.0;
        let a1 = anterior->Ok_0.1;
        let posto = postos.last();
        lemma_melhor_admissivel(p1, p1.len() as int, posto, ind, a1, d.dia as int, t);
        let i = escolhido(p1, posto, ind, a1, d.dia as int, t)->0;
        let r = alocar(ps, al, postos, ind, d, t, ids)->Ok_0.1;
        assert(!em_fadiga(a1, p1[i].id@, d.dia as int, -1));
        assert forall|x: int, y: int|
            0 <= x < r.len() && 0 <= y < r.len() && x != y && (#[trigger] r[x]).user_id@ == (
            #[trigger] r[y]).user_id@ implies !proximos(r[x].data.dia as int, r[y].data.dia as int) by {
            if x < a1.len() && y < a1.len() {
                assert(r[x] == a1[x] && r[y] == a1[y]);
            } else if x < a1.len() {
                assert(r[x] == a1[x]);
                assert(r[y].user_id@ == p1[i].id@);
                assert(!(x != -1 && a1[x].user_id@ == p1[i].id@ && proximos(a1[x].data.dia as int, d.dia as int)));
            } else {
                assert(r[y] == a1[y]);
                assert(r[x].user_id@ == p1[i].id@);
                assert(!(y != -1 && a1[y].user_id@ == p1[i].id@ && proximos(a1[y].data.dia as int, d.dia as int)));
            }
        }
    }
}

/// Generating a day keeps the rule that nobody holds two allocations within one day of
/// each other.
pub proof fn lei_geracao_sem_fadiga(s: EstadoEscala, d: Data, t: TipoRotina, ids: Seq<String>)
    requires
        sem_conflitos(s.alocacoes),
        gerar_dia(s, d, t, ids) is Ok,
    ensures
        sem_conflitos(gerar_dia(s, d, t, ids)->Ok_0.alocacoes),
{
    reveal(gerar_dia);
    let h = indice_escala(s.escalas, d.dia as int);
    if h >= 0 {
        lemma_fora_do_dia_sem_conflitos(s.alocacoes, d.dia as int);
        let p0 = crate::escala::desfazer(s.pessoas, s.alocacoes, d.dia as int, s.escalas[h].tipo)->0;
        lemma_alocar_sem_conflitos(
            p0,
            fora_do_dia(s.alocacoes, d.dia as int),
            s.postos,
            s.indisponibilidades,
            d,
            t,
            ids,
        );
    } else {
        lemma_alocar_sem_conflitos(s.pessoas, s.alocacoes, s.postos, s.indisponibilidades, d, t, ids);
    }
}

/// An approved swap keeps the rule that nobody holds two allocations within one day of
/// each other.
pub proof fn lei_aprovacao_sem_fadiga(s: EstadoEscala, troca: Seq<char>, n: EstadoEscala, agora: Seq<char>)
    requires
        sem_conflitos(s.alocacoes),
        recusa_aprovacao(s, troca) is None,
        aprovada(s, troca, n, agora),
    ensures
        sem_conflitos(n.alocacoes),
{
    let i = indice_troca_aberta(s.trocas, troca);
    let tr = s.trocas[i];
    let j = indice_alocacao(s.alocacoes, tr.alocacao_id@);
    let al = s.alocacoes;
    let r = n.alocacoes;
    crate::busca::lemma_primeiro_valido(al, |a: Alocacao| a.id@ == tr.alocacao_id@);
    assert(!em_fadiga(al, tr.substituto_id@, al[j].data.dia as int, j));
    assert forall|x: int, y: int|
        0 <= x < r.len() && 0 <= y < r.len() && x != y && (#[trigger] r[x]).user_id@ == (
        #[trigger] r[y]).user_id@ implies !proximos(r[x].data.dia as int, r[y].data.dia as int) by {
        if x != j && y != j {
            assert(r[x] == al[x] && r[y] == al[y]);
        } else if x == j {
            assert(r[y] == al[y]);
            assert(r[x].data == al[j].data);
            assert(!(y != j && al[y].user_id@ == tr.substituto_id@ && proximos(al[y].data.dia as int, al[j].data.dia as int)));
        } else {
            assert(r[x] == al[x]);
            assert(r[y].data == al[j].data);
            assert(!(x != j && al[x].user_id@ == tr.substituto_id@ && proximos(al[x].data.dia as int, al[j].data.dia as int)));
        }
    }
}

/// No two posts share an identifier.
pub open spec fn postos_unicos(ps: Seq<Posto>) -> bool {
    forall|i: int, j: int|
        0 <= i < ps.len() && 0 <= j < ps.len() && i != j ==> (#[trigger] ps[i]).id != (
        #[trigger] ps[j]).id
}

/// Every allocation lies on a day that has a header.
pub open spec fn alocacoes_com_dia(s: EstadoEscala) -> bool {
    forall|k: int|
        0 <= k < s.alocacoes.len() ==> indice_escala(
            s.escalas,
            (#[trigger] s.alocacoes[k]).data.dia as int,
        ) >= 0
}

proof fn lemma_do_dia_fora(al: Seq<Alocacao>, d: int)
    ensures
        do_dia(fora_do_dia(al, d), d).len() == 0,
    decreases al.len(),
{
    if al.len() > 0 {
        lemma_do_dia_fora(al.drop_last(), d);
        let r = fora_do_dia(al.drop_last(), d);
        if al.last().data.dia != d {
            assert(r.push(al.last()).drop_last() =~= r);
        }
    }
}

proof fn lemma_do_dia_ausente(al: Seq<Alocacao>, d: int)
    requires
        forall|k: int| 0 <= k < al.len() ==> (#[trigger] al[k]).data.dia != d,
    ensures
        do_dia(al, d).len() == 0,
    decreases al.len(),
{
    if al.len() > 0 {
        let p = al.drop_last();
        assert forall|k: int| 0 <= k < p.len() implies (#[trigger] p[k]).data.dia != d by {
            assert(p[k] == al[k]);
        }
        lemma_do_dia_ausente(p, d);
        assert(al.last() == al[al.len() - 1]);
    }
}

proof fn lemma_alocar_do_dia(
    ps: Seq<Candidato>,
    al: Seq<Alocacao>,
    postos: Seq<Posto>,
    ind: Seq<Indisponibilidade>,
    d: Data,
    t: TipoRotina,
    ids: Seq<String>,
)
    requires
        alocar(ps, al, postos, ind, d, t, ids) is Ok,
    ensures
        ({
            let r = do_dia(alocar(ps, al, postos, ind, d, t, ids)->Ok_0.1, d.dia as int);
            let b = do_dia(al, d.dia as int);
            &&& r.len() == b.len() + postos.len()
            &&& forall|k: int| 0 <= k < b.len() ==> r[k] == b[k]
            &&& forall|k: int| 0 <= k < postos.len() ==> #[trigger] r[b.len() + k].posto_id == postos[k].id
        }),
    decreases postos.len(),
{
    if postos.len() > 0 {
        let pre = postos.drop_last();
        lemma_alocar_do_dia(ps, al, pre, ind, d, t, ids);
        let a1 = alocar(ps, al, pre, ind, d, t, ids)->Ok_0.1;
        let r = alocar(ps, al, postos, ind, d, t, ids)->Ok_0.1;
        assert(r.drop_last() =~= a1);
        assert(r.last().data == d);
        let b = do_dia(al, d.dia as int);
        let rr = do_dia(r, d.dia as int);
        assert(rr == do_dia(a1, d.dia as int).push(r.last()));
        assert forall|k: int| 0 <= k < postos.len() implies #[trigger] rr[b.len() + k].posto_id
            == postos[k].id by {
            if k < pre.len() {
                assert(pre[k] == postos[k]);
            }
        }
    }
}

/// A generated day holds exactly one allocation per post: its allocations are one per
/// post, in the order of the posts.
pub proof fn lei_cada_posto_uma_alocacao(s: EstadoEscala, d: Data, t: TipoRotina, ids: Seq<String>)
    requires
        alocacoes_com_dia(s),
        postos_unicos(s.postos),
        gerar_dia(s, d, t, ids) is Ok,
    ensures
        ({
            let r = do_dia(gerar_dia(s, d, t, ids)->Ok_0.alocacoes, d.dia as int);
            &&& r.len() == s.postos.len()
            &&& forall|k: int| 0 <= k < s.postos.len() ==> (#[trigger] r[k]).posto_id == s.postos[k].id
            &&& forall|k: int, j: int|
                0 <= k < s.postos.len() && 0 <= j < r.len() && (#[trigger] r[j]).posto_id
                    == (#[trigger] s.postos[k]).id ==> j == k
        }),
{
    reveal(gerar_dia);
    let dd = d.dia as int;
    let h = indice_escala(s.escalas, dd);
    let restantes = if h >= 0 {
        fora_do_dia(s.alocacoes, dd)
    } else {
        s.alocacoes
    };
    if h >= 0 {
        lemma_do_dia_fora(s.alocacoes, dd);
    } else {
        assert forall|k: int| 0 <= k < s.alocacoes.len() implies (#[trigger] s.alocacoes[k]).data.dia
            != dd by {
            assert(indice_escala(s.escalas, s.alocacoes[k].data.dia as int) >= 0);
        }
        lemma_do_dia_ausente(s.alocacoes, dd);
    }
    let p0 = if h >= 0 {
        crate::escala::desfazer(s.pessoas, s.alocacoes, dd, s.escalas[h].tipo)->0
    } else {
        s.pessoas
    };
    lemma_alocar_do_dia(p0, restantes, s.postos, s.indisponibilidades, d, t, ids);
    let r = do_dia(gerar_dia(s, d, t, ids)->Ok_0.alocacoes, dd);
    assert forall|k: int| 0 <= k < s.postos.len() implies (#[trigger] r[k]).posto_id == s.postos[k].id by {
        assert(r[0 + k] == r[k]);
    }
    assert forall|k: int, j: int|
        0 <= k < s.postos.len() && 0 <= j < r.len() && (#[trigger] r[j]).posto_id == (
        #[trigger] s.postos[k]).id implies j == k by {
        assert(r[j].posto_id == s.postos[j].id);
        if j != k {
            assert(s.postos[j].id != s.postos[k].id);
        }
    }
}

} // verus!
