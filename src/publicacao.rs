use vstd::prelude::*;
use crate::escala::{BaseEscala, EstadoEscala, indice_escala};
use crate::modelos::{Data, ErroEscala, Escala, StatusEscala};

verus! {

/// A draft header within `[a, b]` becomes published; any other stays as it is.
pub open spec fn publicar_um(e: Escala, a: int, b: int) -> Escala {
    if a <= e.data.dia <= b && e.status == StatusEscala::Rascunho {
        Escala { status: StatusEscala::Publicada, ..e }
    } else {
        e
    }
}

/// Number of draft headers within `[a, b]`.
pub open spec fn rascunhos_em(es: Seq<Escala>, a: int, b: int) -> nat
    decreases es.len(),
{
    if es.len() == 0 {
        0
    } else {
        let e = es.last();
        rascunhos_em(es.drop_last(), a, b) + if a <= e.data.dia <= b && e.status
            == StatusEscala::Rascunho {
            1nat
        } else {
            0nat
        }
    }
}

/// The store after publishing the range `[a, b]`.
pub open spec fn publicacao(s: EstadoEscala, a: int, b: int) -> EstadoEscala {
    EstadoEscala { escalas: s.escalas.map_values(|e: Escala| publicar_um(e, a, b)), ..s }
}

/// An erratum on day `d`: refused when the day has no header or is a draft; otherwise
/// its header becomes a draft again.
pub open spec fn errata(s: EstadoEscala, d: Data) -> Result<EstadoEscala, ErroEscala> {
    let h = indice_escala(s.escalas, d.dia as int);
    if h < 0 {
        Err(ErroEscala::EscalaInexistente(d))
    } else if s.escalas[h].status == StatusEscala::Rascunho {
        Err(ErroEscala::NaoPublicada(d))
    } else {
        Ok(
            EstadoEscala {
                escalas: s.escalas.update(h, Escala { status: StatusEscala::Rascunho, ..s.escalas[h] }),
                ..s
            },
        )
    }
}

impl BaseEscala {
    /// Publishes every draft day from `inicio` to `fim`, both included, and returns how
    /// many; with none, reports that there was nothing to publish.
    pub fn publicar_escala(&mut self, inicio: Data, fim: Data) -> (r: Result<u64, ErroEscala>)
        ensures
            rascunhos_em(old(self).escalas@, inicio.dia as int, fim.dia as int) == 0 ==> r == Err::<
                u64,
                ErroEscala,
            >(ErroEscala::NadaParaPublicar) && final(self)@ == old(self)@,
            rascunhos_em(old(self).escalas@, inicio.dia as int, fim.dia as int) > 0 ==> r == Ok::<
                u64,
                ErroEscala,
            >(rascunhos_em(old(self).escalas@, inicio.dia as int, fim.dia as int) as u64),
            rascunhos_em(old(self).escalas@, inicio.dia as int, fim.dia as int) > 0
                ==> final(self)@ == publicacao(old(self)@, inicio.dia as int, fim.dia as int),
    {
        let ghost e0 = self.escalas@;
        let ghost a = inicio.dia as int;
        let ghost b = fim.dia as int;
        let mut n: u64 = 0;
        let mut i: usize = 0;
        while i < self.escalas.len()
            invariant
                e0 == old(self).escalas@,
                a == inicio.dia as int,
                b == fim.dia as int,
                self.escalas@.len() == e0.len(),
                i <= e0.len(),
                n == rascunhos_em(e0.subrange(0, i as int), a, b),
                n <= i,
                forall|j: int| 0 <= j < i ==> self.escalas@[j] == publicar_um(e0[j], a, b),
                forall|j: int| i <= j < e0.len() ==> self.escalas@[j] == e0[j],
                n == 0 ==> self.escalas@ == e0,
                self.postos == old(self).postos,
                self.pessoas == old(self).pessoas,
                self.indisponibilidades == old(self).indisponibilidades,
                self.alocacoes == old(self).alocacoes,
                self.trocas == old(self).trocas,
            decreases e0.len() - i,
        {
            proof {
                assert(e0.subrange(0, i + 1).drop_last() =~= e0.subrange(0, i as int));
            }
            let e = self.escalas[i];
            if inicio.dia <= e.data.dia && e.data.dia <= fim.dia && e.status
                == StatusEscala::Rascunho {
                self.escalas.set(i, Escala { status: StatusEscala::Publicada, ..e });
                n = n + 1;
            }
            i = i + 1;
        }
        proof {
            assert(e0.subrange(0, e0.len() as int) =~= e0);
            assert(self.escalas@ =~= e0.map_values(|e: Escala| publicar_um(e, a, b)));
        }
        if n == 0 {
            return Err(ErroEscala::NadaParaPublicar);
        }
        Ok(n)
    }

    /// Reopens a published day as a draft.
    pub fn errata_dia(&mut self, data: Data) -> (r: Result<(), ErroEscala>)
        ensures
            match errata(old(self)@, data) {
                Ok(n) => r is Ok && final(self)@ == n,
                Err(e) => r == Err::<(), ErroEscala>(e) && final(self)@ == old(self)@,
            },
    {
        match self.buscar_escala(data) {
            None => Err(ErroEscala::EscalaInexistente(data)),
            Some(h) => {
                let e = self.escalas[h];
                match e.status {
                    StatusEscala::Rascunho => Err(ErroEscala::NaoPublicada(data)),
                    StatusEscala::Publicada => {
                        self.escalas.set(h, Escala { status: StatusEscala::Rascunho, ..e });
                        Ok(())
                    },
                }
            },
        }
    }
}

} // verus!
