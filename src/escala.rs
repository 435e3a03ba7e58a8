use vstd::prelude::*;
use crate::busca::{lemma_nenhum, lemma_primeiro, primeiro_indice};
use crate::modelos::{
    Alocacao, Candidato, Data, ErroEscala, Escala, Indisponibilidade, Posto, StatusEscala, TipoRotina,
    Troca,
};
use crate::selecao::{contador, escolher_candidato, escolhido};

verus! {

/// The roster's store: posts, people, unavailability windows, day headers,
/// allocations and swap requests.
pub struct BaseEscala {
    pub postos: Vec<Posto>,
    pub pessoas: Vec<Candidato>,
    pub indisponibilidades: Vec<Indisponibilidade>,
    pub escalas: Vec<Escala>,
    pub alocacoes: Vec<Alocacao>,
    pub trocas: Vec<Troca>,
}

/// The contents of a store, as sequences.
pub struct EstadoEscala {
    pub postos: Seq<Posto>,
    pub pessoas: Seq<Candidato>,
    pub indisponibilidades: Seq<Indisponibilidade>,
    pub escalas: Seq<Escala>,
    pub alocacoes: Seq<Alocacao>,
    pub trocas: Seq<Troca>,
}

impl View for BaseEscala {
    type V = EstadoEscala;

    open spec fn view(&self) -> EstadoEscala {
        EstadoEscala {
            postos: self.postos@,
            pessoas: self.pessoas@,
            indisponibilidades: self.indisponibilidades@,
            escalas: self.escalas@,
            alocacoes: self.alocacoes@,
            trocas: self.trocas@,
        }
    }
}

/// The field that a duty moves: the punishment balance, or the counter of its type.
pub open spec fn campo(c: Candidato, punicao: bool, t: TipoRotina) -> i64 {
    if punicao {
        c.saldo_punicoes
    } else {
        contador(c, t)
    }
}

pub open spec fn com_campo(c: Candidato, punicao: bool, t: TipoRotina, v: i64) -> Candidato {
    if punicao {
        Candidato { saldo_punicoes: v, ..c }
    } else {
        match t {
            TipoRotina::RN => Candidato { servicos_rn: v, ..c },
            TipoRotina::RD => Candidato { servicos_rd: v, ..c },
        }
    }
}

/// Index of the first person with the identifier, or -1.
pub open spec fn indice_pessoa(ps: Seq<Candidato>, id: Seq<char>) -> int {
    primeiro_indice(ps, |c: Candidato| c.id@ == id)
}

/// Index of the header of day `d`, or -1.
pub open spec fn indice_escala(es: Seq<Escala>, d: int) -> int {
    primeiro_indice(es, |e: Escala| e.data.dia == d)
}

/// Adds `delta` to one field of the person with the identifier; nothing when nobody has
/// it; `None` when the result leaves the range of `i64`.
pub open spec fn ajustar(
    ps: Seq<Candidato>,
    id: Seq<char>,
    punicao: bool,
    t: TipoRotina,
    delta: int,
) -> Option<Seq<Candidato>> {
    let i = indice_pessoa(ps, id);
    if i < 0 {
        Some(ps)
    } else {
        let v = campo(ps[i], punicao, t) + delta;
        if i64::MIN <= v <= i64::MAX {
            Some(ps.update(i, com_campo(ps[i], punicao, t, v as i64)))
        } else {
            None
        }
    }
}

/// Change that placing a duty makes: a punishment duty pays one unit of the balance,
/// any other adds one to the counter.
pub open spec fn efeito(punicao: bool) -> int {
    if punicao {
        -1
    } else {
        1
    }
}

/// Returns to each person the effect of their allocations on day `d`, in order.
pub open spec fn desfazer(ps: Seq<Candidato>, alocs: Seq<Alocacao>, d: int, t: TipoRotina) -> Option<
    Seq<Candidato>,
>
    decreases alocs.len(),
{
    if alocs.len() == 0 {
        Some(ps)
    } else {
        match desfazer(ps, alocs.drop_last(), d, t) {
            None => None,
            Some(q) => {
                let a = alocs.last();
                if a.data.dia == d {
                    ajustar(q, a.user_id@, a.is_punicao, t, -efeito(a.is_punicao))
                } else {
                    Some(q)
                }
            },
        }
    }
}

/// The allocations of other days, in order.
pub open spec fn fora_do_dia(alocs: Seq<Alocacao>, d: int) -> Seq<Alocacao>
    decreases alocs.len(),
{
    if alocs.len() == 0 {
        alocs
    } else {
        let r = fora_do_dia(alocs.drop_last(), d);
        if alocs.last().data.dia == d {
            r
        } else {
            r.push(alocs.last())
        }
    }
}

/// Fills the posts in order; each one takes the chosen person, whose balance or counter
/// moves, and the next identifier of `ids`.
pub open spec fn alocar(
    ps: Seq<Candidato>,
    alocs: Seq<Alocacao>,
    postos: Seq<Posto>,
    ind: Seq<Indisponibilidade>,
    d: Data,
    t: TipoRotina,
    ids: Seq<String>,
) -> Result<(Seq<Candidato>, Seq<Alocacao>), ErroEscala>
    decreases postos.len(),
{
    if postos.len() == 0 {
        Ok((ps, alocs))
    } else {
        match alocar(ps, alocs, postos.drop_last(), ind, d, t, ids) {
            Err(e) => Err(e),
            Ok((p1, a1)) => {
                let posto = postos.last();
                match escolhido(p1, posto, ind, a1, d.dia as int, t) {
                    None => Err(
                        ErroEscala::SemCandidato { posto: posto.nome, anos: posto.turmas_permitidas },
                    ),
                    Some(i) => {
                        let c = p1[i];
                        let pun = c.saldo_punicoes > 0;
                        match ajustar(p1, c.id@, pun, t, efeito(pun)) {
                            None => Err(ErroEscala::ContadorExcedido),
                            Some(p2) => Ok(
                                (
                                    p2,
                                    a1.push(
                                        Alocacao {
                                            id: ids[postos.len() - 1],
                                            user_id: c.id,
                                            posto_id: posto.id,
                                            data: d,
                                            is_punicao: pun,
                                        },
                                    ),
                                ),
                            ),
                        }
                    },
                }
            },
        }
    }
}

/// One day's generation: refused on a published day; on a draft day the earlier
/// allocations are undone and removed; the header becomes a draft of type `t`, and every
/// post is filled. `ids` names the new allocations.
#[verifier::opaque]
pub open spec fn gerar_dia(s: EstadoEscala, d: Data, t: TipoRotina, ids: Seq<String>) -> Result<
    EstadoEscala,
    ErroEscala,
> {
    let h = indice_escala(s.escalas, d.dia as int);
    let cab = Escala { data: d, tipo: t, status: StatusEscala::Rascunho };
    if h >= 0 && s.escalas[h].status == StatusEscala::Publicada {
        Err(ErroEscala::JaPublicada(d))
    } else {
        let limpo = if h >= 0 {
            desfazer(s.pessoas, s.alocacoes, d.dia as int, s.escalas[h].tipo)
        } else {
            Some(s.pessoas)
        };
        let restantes = if h >= 0 {
            fora_do_dia(s.alocacoes, d.dia as int)
        } else {
            s.alocacoes
        };
        match limpo {
            None => Err(ErroEscala::ContadorExcedido),
            Some(p0) => match alocar(p0, restantes, s.postos, s.indisponibilidades, d, t, ids) {
                Err(e) => Err(e),
                Ok((p, a)) => Ok(
                    EstadoEscala {
                        pessoas: p,
                        alocacoes: a,
                        escalas: if h >= 0 {
                            s.escalas.update(h, cab)
                        } else {
                            s.escalas.push(cab)
                        },
                        ..s
                    },
                ),
            },
        }
    }
}

/// Once undoing a prefix overflows, undoing the whole does.
pub proof fn lemma_desfazer_falha(
    ps: Seq<Candidato>,
    alocs: Seq<Alocacao>,
    d: int,
    t: TipoRotina,
    j: int,
)
    requires
        0 <= j <= alocs.len(),
        desfazer(ps, alocs.subrange(0, j), d, t) is None,
    ensures
        desfazer(ps, alocs, d, t) is None,
    decreases alocs.len(),
{
    if j == alocs.len() {
        assert(alocs.subrange(0, j) =~= alocs);
    } else {
        assert(alocs.drop_last().subrange(0, j) =~= alocs.subrange(0, j));
        lemma_desfazer_falha(ps, alocs.drop_last(), d, t, j);
    }
}

/// Once filling a prefix of the posts fails, filling them all fails the same way.
pub proof fn lemma_alocar_falha(
    ps: Seq<Candidato>,
    alocs: Seq<Alocacao>,
    postos: Seq<Posto>,
    ind: Seq<Indisponibilidade>,
    d: Data,
    t: TipoRotina,
    ids: Seq<String>,
    j: int,
)
    requires
        0 <= j <= postos.len(),
        alocar(ps, alocs, postos.subrange(0, j), ind, d, t, ids) is Err,
    ensures
        alocar(ps, alocs, postos, ind, d, t, ids) == alocar(
            ps,
            alocs,
            postos.subrange(0, j),
            ind,
            d,
            t,
            ids,
        ),
    decreases postos.len(),
{
    if j == postos.len() {
        assert(postos.subrange(0, j) =~= postos);
    } else {
        assert(postos.drop_last().subrange(0, j) =~= postos.subrange(0, j));
        lemma_alocar_falha(ps, alocs, postos.drop_last(), ind, d, t, ids, j);
    }
}

/// Finds the first person with the identifier.
pub fn buscar_pessoa(ps: &Vec<Candidato>, id: &String) -> (r: Option<usize>)
    ensures
        match r {
            Some(i) => indice_pessoa(ps@, id@) == i as int && i < ps@.len(),
            None => indice_pessoa(ps@, id@) == -1,
        },
{
    let ghost f = |c: Candidato| c.id@ == id@;
    let mut i: usize = 0;
    while i < ps.len()
        invariant
            i <= ps@.len(),
            f == (|c: Candidato| c.id@ == id@),
            forall|j: int| 0 <= j < i ==> !f(ps@[j]),
        decreases ps@.len() - i,
    {
        if ps[i].id == *id {
            proof {
                lemma_primeiro(ps@, f, i as int);
            }
            return Some(i);
        }
        i = i + 1;
    }
    proof {
        lemma_nenhum(ps@, f);
    }
    None
}

/// Adds `delta` (one up or one down) to a field of the person with the identifier.
/// Returns false, changing nothing, when the field would overflow.
pub fn ajustar_pessoa(
    ps: &mut Vec<Candidato>,
    id: &String,
    punicao: bool,
    t: TipoRotina,
    delta: i64,
) -> (r: bool)
    requires
        delta == 1 || delta == -1,
    ensures
        match ajustar(old(ps)@, id@, punicao, t, delta as int) {
            Some(q) => r && final(ps)@ == q,
            None => !r && final(ps)@ == old(ps)@,
        },
{
    match buscar_pessoa(ps, id) {
        None => true,
        Some(i) => {
            let mut c = ps[i].copia();
            let atual: i64 = if punicao {
                c.saldo_punicoes
            } else {
                match t {
                    TipoRotina::RN => c.servicos_rn,
                    TipoRotina::RD => c.servicos_rd,
                }
            };
            if (delta == 1 && atual == i64::MAX) || (delta == -1 && atual == i64::MIN) {
                return false;
            }
            let v = atual + delta;
            if punicao {
                c.saldo_punicoes = v;
            } else {
                match t {
                    TipoRotina::RN => c.servicos_rn = v,
                    TipoRotina::RD => c.servicos_rd = v,
                }
            }
            ps.set(i, c);
            true
        },
    }
}

pub fn copiar_pessoas(v: &Vec<Candidato>) -> (r: Vec<Candidato>)
    ensures
        r@ == v@,
{
    let mut r: Vec<Candidato> = Vec::new();
    let mut i: usize = 0;
    while i < v.len()
        invariant
            i <= v@.len(),
            r@ =~= v@.subrange(0, i as int),
        decreases v@.len() - i,
    {
        r.push(v[i].copia());
        i = i + 1;
    }
    assert(r@ =~= v@);
    r
}

pub fn copiar_alocacoes(v: &Vec<Alocacao>) -> (r: Vec<Alocacao>)
    ensures
        r@ == v@,
{
    let mut r: Vec<Alocacao> = Vec::new();
    let mut i: usize = 0;
    while i < v.len()
        invariant
            i <= v@.len(),
            r@ =~= v@.subrange(0, i as int),
        decreases v@.len() - i,
    {
        r.push(v[i].copia());
        i = i + 1;
    }
    assert(r@ =~= v@);
    r
}

/// The allocations of other days.
pub fn sem_o_dia(alocs: &Vec<Alocacao>, d: Data) -> (r: Vec<Alocacao>)
    ensures
        r@ == fora_do_dia(alocs@, d.dia as int),
{
    let mut r: Vec<Alocacao> = Vec::new();
    let mut i: usize = 0;
    while i < alocs.len()
        invariant
            i <= alocs@.len(),
            r@ == fora_do_dia(alocs@.subrange(0, i as int), d.dia as int),
        decreases alocs@.len() - i,
    {
        proof {
            assert(alocs@.subrange(0, i + 1).drop_last() =~= alocs@.subrange(0, i as int));
        }
        if alocs[i].data.dia != d.dia {
            r.push(alocs[i].copia());
        }
        i = i + 1;
    }
    assert(alocs@.subrange(0, alocs@.len() as int) =~= alocs@);
    r
}

/// Undoes the effect of the allocations of day `d`, whose type is `t`. Returns false
/// when a field would overflow.
pub fn desfazer_dia(ps: &mut Vec<Candidato>, alocs: &Vec<Alocacao>, d: Data, t: TipoRotina) -> (r:
    bool)
    ensures
        match desfazer(old(ps)@, alocs@, d.dia as int, t) {
            Some(q) => r && final(ps)@ == q,
            None => !r,
        },
{
    let ghost p0 = ps@;
    let mut i: usize = 0;
    while i < alocs.len()
        invariant
            i <= alocs@.len(),
            p0 == old(ps)@,
            desfazer(p0, alocs@.subrange(0, i as int), d.dia as int, t) == Some(ps@),
        decreases alocs@.len() - i,
    {
        proof {
            assert(alocs@.subrange(0, i + 1).drop_last() =~= alocs@.subrange(0, i as int));
        }
        let a = &alocs[i];
        if a.data.dia == d.dia {
            let delta: i64 = if a.is_punicao {
                1
            } else {
                -1
            };
            let ghost antes = ps@;
            if !ajustar_pessoa(ps, &a.user_id, a.is_punicao, t, delta) {
                proof {
                    assert(alocs@.subrange(0, i + 1).last() == alocs@[i as int]);
                    assert(desfazer(p0, alocs@.subrange(0, i + 1), d.dia as int, t) is None);
                    lemma_desfazer_falha(p0, alocs@, d.dia as int, t, i + 1);
                }
                return false;
            }
        }
        i = i + 1;
    }
    assert(alocs@.subrange(0, alocs@.len() as int) =~= alocs@);
    true
}

/// Fills every post in order, as `alocar` states.
pub fn alocar_postos(
    ps: &mut Vec<Candidato>,
    alocs: &mut Vec<Alocacao>,
    postos: &Vec<Posto>,
    ind: &Vec<Indisponibilidade>,
    d: Data,
    t: TipoRotina,
    ids: &Vec<String>,
) -> (r: Result<(), ErroEscala>)
    requires
        ids@.len() == postos@.len(),
    ensures
        match alocar(old(ps)@, old(alocs)@, postos@, ind@, d, t, ids@) {
            Ok((p, a)) => r is Ok && final(ps)@ == p && final(alocs)@ == a,
            Err(e) => r == Err::<(), ErroEscala>(e),
        },
{
    let ghost p0 = ps@;
    let ghost a0 = alocs@;
    let mut k: usize = 0;
    while k < postos.len()
        invariant
            k <= postos@.len(),
            ids@.len() == postos@.len(),
            p0 == old(ps)@,
            a0 == old(alocs)@,
            alocar(p0, a0, postos@.subrange(0, k as int), ind@, d, t, ids@) == Ok::<
                (Seq<Candidato>, Seq<Alocacao>),
                ErroEscala,
            >((ps@, alocs@)),
        decreases postos@.len() - k,
    {
        let ghost sub = postos@.subrange(0, k + 1);
        proof {
            assert(sub.drop_last() =~= postos@.subrange(0, k as int));
            assert(sub.last() == postos@[k as int]);
        }
        let posto = &postos[k];
        match escolher_candidato(ps, posto, ind, alocs, d, t) {
            None => {
                proof {
                    assert(alocar(p0, a0, sub, ind@, d, t, ids@) is Err);
                    lemma_alocar_falha(p0, a0, postos@, ind@, d, t, ids@, k + 1);
                }
                return Err(
                    ErroEscala::SemCandidato {
                        posto: posto.nome.clone(),
                        anos: posto.turmas_permitidas.clone(),
                    },
                );
            },
            Some(i) => {
                let pun = ps[i].saldo_punicoes > 0;
                let uid = ps[i].id.clone();
                let delta: i64 = if pun {
                    -1
                } else {
                    1
                };
                if !ajustar_pessoa(ps, &uid, pun, t, delta) {
                    proof {
                        assert(alocar(p0, a0, sub, ind@, d, t, ids@) is Err);
                        lemma_alocar_falha(p0, a0, postos@, ind@, d, t, ids@, k + 1);
                    }
                    return Err(ErroEscala::ContadorExcedido);
                }
                alocs.push(
                    Alocacao {
                        id: ids[k].clone(),
                        user_id: uid,
                        posto_id: posto.id,
                        data: d,
                        is_punicao: pun,
                    },
                );
            },
        }
        k = k + 1;
    }
    assert(postos@.subrange(0, postos@.len() as int) =~= postos@);
    Ok(())
}

impl BaseEscala {
    /// Finds the header of day `d`.
    pub fn buscar_escala(&self, d: Data) -> (r: Option<usize>)
        ensures
            match r {
                Some(i) => indice_escala(self.escalas@, d.dia as int) == i as int && i
                    < self.escalas@.len(),
                None => indice_escala(self.escalas@, d.dia as int) == -1,
            },
    {
        let ghost f = |e: Escala| e.data.dia == d.dia as int;
        let mut i: usize = 0;
        while i < self.escalas.len()
            invariant
                i <= self.escalas@.len(),
                f == (|e: Escala| e.data.dia == d.dia as int),
                forall|j: int| 0 <= j < i ==> !f(self.escalas@[j]),
            decreases self.escalas@.len() - i,
        {
            if self.escalas[i].data.dia == d.dia {
                proof {
                    lemma_primeiro(self.escalas@, f, i as int);
                }
                return Some(i);
            }
            i = i + 1;
        }
        proof {
            lemma_nenhum(self.escalas@, f);
        }
        None
    }

    /// Generates the roster of one day, naming the new allocations by `ids` (one per
    /// post). All or nothing: on an error the store is unchanged.
    pub fn gerar_escala_diaria_com_ids(&mut self, data: Data, tipo: TipoRotina, ids: Vec<String>) -> (r:
        Result<(), ErroEscala>)
        requires
            ids@.len() == old(self).postos@.len(),
        ensures
            match gerar_dia(old(self)@, data, tipo, ids@) {
                Ok(n) => r is Ok && final(self)@ == n,
                Err(e) => r == Err::<(), ErroEscala>(e) && final(self)@ == old(self)@,
            },
    {
        proof {
            reveal(gerar_dia);
        }
        let h = self.buscar_escala(data);
        let mut ps = copiar_pessoas(&self.pessoas);
        let mut alocs: Vec<Alocacao>;
        match h {
            Some(i) => {
                if self.escalas[i].status == StatusEscala::Publicada {
                    return Err(ErroEscala::JaPublicada(data));
                }
                let anterior = self.escalas[i].tipo;
                if !desfazer_dia(&mut ps, &self.alocacoes, data, anterior) {
                    return Err(ErroEscala::ContadorExcedido);
                }
                alocs = sem_o_dia(&self.alocacoes, data);
            },
            None => {
                alocs = copiar_alocacoes(&self.alocacoes);
            },
        }
        match alocar_postos(
            &mut ps,
            &mut alocs,
            &self.postos,
            &self.indisponibilidades,
            data,
            tipo,
            &ids,
        ) {
            Err(e) => {
                return Err(e);
            },
            Ok(()) => {},
        }
        let cab = Escala { data, tipo, status: StatusEscala::Rascunho };
        match h {
            Some(i) => {
                self.escalas.set(i, cab);
            },
            None => {
                self.escalas.push(cab);
            },
        }
        self.pessoas = ps;
        self.alocacoes = alocs;
        Ok(())
    }
}

} // verus!
