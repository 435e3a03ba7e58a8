use vstd::prelude::*;
use crate::busca::{lemma_nenhum, lemma_primeiro, primeiro_indice};
use crate::escala::{BaseEscala, EstadoEscala, ajustar, ajustar_pessoa, copiar_pessoas, indice_escala};
use crate::externos::nova_id;
use crate::modelos::{Alocacao, Candidato, ErroEscala, StatusEscala, StatusTroca, TipoRotina, Troca};
use crate::selecao::{em_fadiga, tem_fadiga};
use crate::texto::texto_igual;

verus! {

/// Index of the first allocation with the identifier, or -1.
pub open spec fn indice_alocacao(al: Seq<Alocacao>, id: Seq<char>) -> int {
    primeiro_indice(al, |a: Alocacao| a.id@ == id)
}

/// Index of the first swap request with the identifier, or -1.
pub open spec fn indice_troca(ts: Seq<Troca>, id: Seq<char>) -> int {
    primeiro_indice(ts, |t: Troca| t.id@ == id)
}

/// A request not yet decided by the scheduler.
pub open spec fn aberta(t: Troca) -> bool {
    t.status == StatusTroca::Pendente || t.status == StatusTroca::AguardandoEscalante
}

/// Index of the first undecided swap request with the identifier, or -1.
pub open spec fn indice_troca_aberta(ts: Seq<Troca>, id: Seq<char>) -> int {
    primeiro_indice(ts, |t: Troca| t.id@ == id && aberta(t))
}

pub open spec fn com_troca(s: EstadoEscala, t: Troca) -> EstadoEscala {
    EstadoEscala { trocas: s.trocas.push(t), ..s }
}

/// Why a swap request on the allocation, naming the substitute, is refused, if it is:
/// the allocation or its day is missing, the day is published, or the substitute holds
/// another allocation within one day.
pub open spec fn recusa_pedido(s: EstadoEscala, alocacao: Seq<char>, substituto: Seq<char>) -> Option<
    ErroEscala,
> {
    let i = indice_alocacao(s.alocacoes, alocacao);
    if i < 0 {
        Some(ErroEscala::AlocacaoNaoEncontrada)
    } else {
        let a = s.alocacoes[i];
        let h = indice_escala(s.escalas, a.data.dia as int);
        if h < 0 {
            Some(ErroEscala::AlocacaoNaoEncontrada)
        } else if s.escalas[h].status == StatusEscala::Publicada {
            Some(ErroEscala::JaPublicada(a.data))
        } else if em_fadiga(s.alocacoes, substituto, a.data.dia as int, i) {
            Some(ErroEscala::Fadiga)
        } else {
            None
        }
    }
}

/// A new pending request with these fields, stamped `agora`.
pub open spec fn troca_nova(
    t: Troca,
    id: Seq<char>,
    solicitante: Seq<char>,
    alocacao: Seq<char>,
    substituto: Seq<char>,
    motivo: Seq<char>,
    agora: Seq<char>,
) -> bool {
    &&& t.id@ == id
    &&& t.solicitante_id@ == solicitante
    &&& t.alocacao_id@ == alocacao
    &&& t.substituto_id@ == substituto
    &&& t.status == StatusTroca::Pendente
    &&& t.motivo@ == motivo
    &&& t.criado_em is Some && t.criado_em->0@ == agora
    &&& t.data_resposta is None
}

/// Why the answer of `user` to a request is refused, if it is: no such request, it is
/// addressed to someone else, or it is no longer pending.
pub open spec fn recusa_resposta(s: EstadoEscala, troca: Seq<char>, user: Seq<char>) -> Option<
    ErroEscala,
> {
    let i = indice_troca(s.trocas, troca);
    if i < 0 {
        Some(ErroEscala::TrocaNaoEncontrada)
    } else if s.trocas[i].substituto_id@ != user {
        Some(ErroEscala::SemPermissao)
    } else if s.trocas[i].status != StatusTroca::Pendente {
        Some(ErroEscala::JaRespondida)
    } else {
        None
    }
}

/// The request after the substitute's answer: accepted, it awaits the scheduler;
/// declined, it is rejected and stamped `agora`.
pub open spec fn respondida(antes: Troca, depois: Troca, aceitar: bool, agora: Seq<char>) -> bool {
    if aceitar {
        depois == Troca { status: StatusTroca::AguardandoEscalante, ..antes }
    } else {
        &&& depois == Troca {
            status: StatusTroca::Recusada,
            data_resposta: depois.data_resposta,
            ..antes
        }
        &&& depois.data_resposta is Some && depois.data_resposta->0@ == agora
    }
}

/// The fairness credit that moves from requester to substitute; none for a punishment
/// duty.
pub open spec fn transferencia(ps: Seq<Candidato>, t: Troca, punicao: bool, tipo: TipoRotina) -> Option<
    Seq<Candidato>,
> {
    if punicao {
        Some(ps)
    } else {
        match ajustar(ps, t.solicitante_id@, false, tipo, -1) {
            None => None,
            Some(q) => ajustar(q, t.substituto_id@, false, tipo, 1),
        }
    }
}

/// Why the approval of a request is refused, if it is: no undecided request with that
/// identifier, its allocation or day is missing, the substitute now holds another
/// allocation within one day, or a counter would overflow.
pub open spec fn recusa_aprovacao(s: EstadoEscala, troca: Seq<char>) -> Option<ErroEscala> {
    let i = indice_troca_aberta(s.trocas, troca);
    if i < 0 {
        Some(ErroEscala::TrocaInvalida)
    } else {
        let t = s.trocas[i];
        let j = indice_alocacao(s.alocacoes, t.alocacao_id@);
        if j < 0 {
            Some(ErroEscala::TrocaInvalida)
        } else {
            let a = s.alocacoes[j];
            let h = indice_escala(s.escalas, a.data.dia as int);
            if h < 0 {
                Some(ErroEscala::TrocaInvalida)
            } else if em_fadiga(s.alocacoes, t.substituto_id@, a.data.dia as int, j) {
                Some(ErroEscala::Fadiga)
            } else if transferencia(s.pessoas, t, a.is_punicao, s.escalas[h].tipo) is None {
                Some(ErroEscala::ContadorExcedido)
            } else {
                None
            }
        }
    }
}

/// The store after an approval: the allocation passes to the substitute, the fairness
/// credit moves, and the request is approved and stamped `agora`.
pub open spec fn aprovada(s: EstadoEscala, troca: Seq<char>, n: EstadoEscala, agora: Seq<char>) -> bool {
    let i = indice_troca_aberta(s.trocas, troca);
    let t = s.trocas[i];
    let j = indice_alocacao(s.alocacoes, t.alocacao_id@);
    let a = s.alocacoes[j];
    let h = indice_escala(s.escalas, a.data.dia as int);
    &&& n.postos == s.postos
    &&& n.indisponibilidades == s.indisponibilidades
    &&& n.escalas == s.escalas
    &&& n.alocacoes == s.alocacoes.update(j, Alocacao { user_id: t.substituto_id, ..a })
    &&& transferencia(s.pessoas, t, a.is_punicao, s.escalas[h].tipo) == Some(n.pessoas)
    &&& n.trocas == s.trocas.update(i, n.trocas[i])
    &&& n.trocas[i] == Troca {
        status: StatusTroca::Aprovada,
        data_resposta: n.trocas[i].data_resposta,
        ..t
    }
    &&& n.trocas[i].data_resposta is Some && n.trocas[i].data_resposta->0@ == agora
}

impl BaseEscala {
    /// Finds the first allocation with the identifier.
    pub fn buscar_alocacao(&self, id: &str) -> (r: Option<usize>)
        ensures
            match r {
                Some(i) => indice_alocacao(self.alocacoes@, id@) == i as int && i
                    < self.alocacoes@.len(),
                None => indice_alocacao(self.alocacoes@, id@) == -1,
            },
    {
        let ghost f = |a: Alocacao| a.id@ == id@;
        let mut i: usize = 0;
        while i < self.alocacoes.len()
            invariant
                i <= self.alocacoes@.len(),
                f == (|a: Alocacao| a.id@ == id@),
                forall|j: int| 0 <= j < i ==> !f(self.alocacoes@[j]),
            decreases self.alocacoes@.len() - i,
        {
            if texto_igual(self.alocacoes[i].id.as_str(), id) {
                proof {
                    lemma_primeiro(self.alocacoes@, f, i as int);
                }
                return Some(i);
            }
            i = i + 1;
        }
        proof {
            lemma_nenhum(self.alocacoes@, f);
        }
        None
    }

    /// Finds the first swap request with the identifier; with `so_abertas`, the first
    /// one not yet decided by the scheduler.
    pub fn buscar_troca(&self, id: &str, so_abertas: bool) -> (r: Option<usize>)
        ensures
            ({
                let k = if so_abertas {
                    indice_troca_aberta(self.trocas@, id@)
                } else {
                    indice_troca(self.trocas@, id@)
                };
                match r {
                    Some(i) => k == i as int && i < self.trocas@.len(),
                    None => k == -1,
                }
            }),
    {
        let ghost f = if so_abertas {
            |t: Troca| t.id@ == id@ && aberta(t)
        } else {
            |t: Troca| t.id@ == id@
        };
        let mut i: usize = 0;
        while i < self.trocas.len()
            invariant
                i <= self.trocas@.len(),
                f == if so_abertas {
                    |t: Troca| t.id@ == id@ && aberta(t)
                } else {
                    |t: Troca| t.id@ == id@
                },
                forall|j: int| 0 <= j < i ==> !f(self.trocas@[j]),
            decreases self.trocas@.len() - i,
        {
            let t = &self.trocas[i];
            let serve = texto_igual(t.id.as_str(), id) && (!so_abertas || t.status
                == StatusTroca::Pendente || t.status == StatusTroca::AguardandoEscalante);
            if serve {
                proof {
                    lemma_primeiro(self.trocas@, f, i as int);
                }
                return Some(i);
            }
            i = i + 1;
        }
        proof {
            lemma_nenhum(self.trocas@, f);
        }
        None
    }

    /// Records a swap request, named `id`, of the allocation `alocacao_id` to the
    /// substitute, stamped `agora`.
    pub fn solicitar_troca_com_id(
        &mut self,
        solicitante_id: &str,
        alocacao_id: &str,
        substituto_id: &str,
        motivo: &str,
        agora: &str,
        id: String,
    ) -> (r: Result<(), ErroEscala>)
        ensures
            match recusa_pedido(old(self)@, alocacao_id@, substituto_id@) {
                Some(e) => r == Err::<(), ErroEscala>(e) && final(self)@ == old(self)@,
                None => r is Ok && final(self)@ == com_troca(old(self)@, final(self).trocas@.last())
                    && troca_nova(
                    final(self).trocas@.last(),
                    id@,
                    solicitante_id@,
                    alocacao_id@,
                    substituto_id@,
                    motivo@,
                    agora@,
                ),
            },
    {
        let i = match self.buscar_alocacao(alocacao_id) {
            Some(i) => i,
            None => {
                return Err(ErroEscala::AlocacaoNaoEncontrada);
            },
        };
        let data = self.alocacoes[i].data;
        let h = match self.buscar_escala(data) {
            Some(h) => h,
            None => {
                return Err(ErroEscala::AlocacaoNaoEncontrada);
            },
        };
        if self.escalas[h].status == StatusEscala::Publicada {
            return Err(ErroEscala::JaPublicada(data));
        }
        let substituto = substituto_id.to_owned();
        if tem_fadiga(&self.alocacoes, &substituto, data, Some(i)) {
            return Err(ErroEscala::Fadiga);
        }
        let t = Troca {
            id,
            solicitante_id: solicitante_id.to_owned(),
            substituto_id: substituto,
            alocacao_id: alocacao_id.to_owned(),
            status: StatusTroca::Pendente,
            motivo: motivo.to_owned(),
            criado_em: Some(agora.to_owned()),
            data_resposta: None,
        };
        self.trocas.push(t);
        Ok(())
    }

    /// Records a swap request with a fresh identifier.
    pub fn solicitar_troca(
        &mut self,
        solicitante_id: &str,
        alocacao_id: &str,
        substituto_id: &str,
        motivo: &str,
        agora: &str,
    ) -> (r: Result<(), ErroEscala>)
        ensures
            match recusa_pedido(old(self)@, alocacao_id@, substituto_id@) {
                Some(e) => r == Err::<(), ErroEscala>(e) && final(self)@ == old(self)@,
                None => r is Ok && final(self)@ == com_troca(old(self)@, final(self).trocas@.last())
                    && troca_nova(
                    final(self).trocas@.last(),
                    final(self).trocas@.last().id@,
                    solicitante_id@,
                    alocacao_id@,
                    substituto_id@,
                    motivo@,
                    agora@,
                ) && final(self).trocas@.last().id@.len() == 36,
            },
    {
        let id = nova_id();
        self.solicitar_troca_com_id(solicitante_id, alocacao_id, substituto_id, motivo, agora, id)
    }

    /// The substitute's answer: `"aceitar"` accepts, any other action declines. Returns
    /// the request's new state.
    pub fn responder_troca_usuario(
        &mut self,
        troca_id: &str,
        user_id: &str,
        acao: &str,
        agora: &str,
    ) -> (r: Result<StatusTroca, ErroEscala>)
        ensures
            match recusa_resposta(old(self)@, troca_id@, user_id@) {
                Some(e) => r == Err::<StatusTroca, ErroEscala>(e) && final(self)@ == old(self)@,
                None => {
                    let i = indice_troca(old(self).trocas@, troca_id@);
                    &&& r == Ok::<StatusTroca, ErroEscala>(final(self).trocas@[i].status)
                    &&& final(self)@ == EstadoEscala {
                        trocas: old(self).trocas@.update(i, final(self).trocas@[i]),
                        ..old(self)@
                    }
                    &&& respondida(
                        old(self).trocas@[i],
                        final(self).trocas@[i],
                        acao@ == "aceitar"@,
                        agora@,
                    )
                },
            },
    {
        let i = match self.buscar_troca(troca_id, false) {
            Some(i) => i,
            None => {
                return Err(ErroEscala::TrocaNaoEncontrada);
            },
        };
        if !texto_igual(self.trocas[i].substituto_id.as_str(), user_id) {
            return Err(ErroEscala::SemPermissao);
        }
        if self.trocas[i].status != StatusTroca::Pendente {
            return Err(ErroEscala::JaRespondida);
        }
        let mut t = self.trocas[i].copia();
        if texto_igual(acao, "aceitar") {
            t.status = StatusTroca::AguardandoEscalante;
        } else {
            t.status = StatusTroca::Recusada;
            t.data_resposta = Some(agora.to_owned());
        }
        let novo = t.status;
        self.trocas.set(i, t);
        Ok(novo)
    }

    /// The scheduler's approval of a request that is pending or awaiting the scheduler:
    /// fatigue is checked again, the allocation passes to the substitute, and the
    /// fairness credit moves from requester to substitute.
    pub fn aprovar_troca(&mut self, troca_id: &str, agora: &str) -> (r: Result<(), ErroEscala>)
        ensures
            match recusa_aprovacao(old(self)@, troca_id@) {
                Some(e) => r == Err::<(), ErroEscala>(e) && final(self)@ == old(self)@,
                None => r is Ok && aprovada(old(self)@, troca_id@, final(self)@, agora@),
            },
    {
        let i = match self.buscar_troca(troca_id, true) {
            Some(i) => i,
            None => {
                return Err(ErroEscala::TrocaInvalida);
            },
        };
        let j = match self.buscar_alocacao(self.trocas[i].alocacao_id.as_str()) {
            Some(j) => j,
            None => {
                return Err(ErroEscala::TrocaInvalida);
            },
        };
        let data = self.alocacoes[j].data;
        let h = match self.buscar_escala(data) {
            Some(h) => h,
            None => {
                return Err(ErroEscala::TrocaInvalida);
            },
        };
        let mut t = self.trocas[i].copia();
        if tem_fadiga(&self.alocacoes, &t.substituto_id, data, Some(j)) {
            return Err(ErroEscala::Fadiga);
        }
        let tipo = self.escalas[h].tipo;
        let mut ps = copiar_pessoas(&self.pessoas);
        if !self.alocacoes[j].is_punicao {
            if !ajustar_pessoa(&mut ps, &t.solicitante_id, false, tipo, -1) {
                return Err(ErroEscala::ContadorExcedido);
            }
            if !ajustar_pessoa(&mut ps, &t.substituto_id, false, tipo, 1) {
                return Err(ErroEscala::ContadorExcedido);
            }
        }
        let mut a = self.alocacoes[j].copia();
        a.user_id = t.substituto_id.clone();
        t.status = StatusTroca::Aprovada;
        t.data_resposta = Some(agora.to_owned());
        self.alocacoes.set(j, a);
        self.pessoas = ps;
        self.trocas.set(i, t);
        Ok(())
    }
}

} // verus!
