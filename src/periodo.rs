use vstd::prelude::*;
use crate::escala::{BaseEscala, EstadoEscala, gerar_dia};
use crate::externos::{dia_da_semana, dia_lido, ler_dia, nova_id, semana_de};
use crate::modelos::{Data, ErroEscala, TipoRotina};

verus! {

/// Why a period could not be generated.
#[derive(Clone, Debug)]
pub enum ErroPeriodo {
    /// A bound is not a date written `YYYY-MM-DD`.
    DataInvalida,
    /// The end comes before the start.
    IntervaloInvalido,
    /// A day of the range lies outside the calendar's range.
    ForaDoCalendario(Data),
    /// The generation of a day failed; the days before it stay generated.
    FalhaNoDia(Data, ErroEscala),
}

/// Duty type by day of the week (Monday is 0): Friday, Saturday and Sunday are
/// weekend/holiday routine, the other days normal routine.
pub open spec fn tipo_do_dia(w: u32) -> TipoRotina {
    if w == 4 || w == 5 || w == 6 {
        TipoRotina::RD
    } else {
        TipoRotina::RN
    }
}

pub fn tipo_para_dia_semana(w: u32) -> (r: TipoRotina)
    ensures
        r == tipo_do_dia(w),
{
    if w == 4 || w == 5 || w == 6 {
        TipoRotina::RD
    } else {
        TipoRotina::RN
    }
}

impl Data {
    /// Reads a date written `YYYY-MM-DD`.
    pub fn ler(s: &str) -> (r: Option<Data>)
        ensures
            match dia_lido(s@) {
                Some(d) => r == Some(Data { dia: d }),
                None => r is None,
            },
    {
        match ler_dia(s) {
            Some(d) => Some(Data { dia: d }),
            None => None,
        }
    }
}

/// What one day's generation did to the store, for the identifiers `ids`.
pub open spec fn resultado_dia(
    antes: EstadoEscala,
    depois: EstadoEscala,
    r: Result<(), ErroEscala>,
    d: Data,
    t: TipoRotina,
    ids: Seq<String>,
) -> bool {
    &&& ids.len() == antes.postos.len()
    &&& match gerar_dia(antes, d, t, ids) {
        Ok(n) => r is Ok && depois == n,
        Err(e) => r == Err::<(), ErroEscala>(e) && depois == antes,
    }
}

/// Day `d` of a period, generated with the duty type of its weekday, leads from `a`
/// to `b`.
pub open spec fn passo(a: EstadoEscala, d: int, b: EstadoEscala) -> bool {
    exists|w: u32, ids: Seq<String>|
        semana_de(d) == Some(w) && ids.len() == a.postos.len() && #[trigger] gerar_dia(
            a,
            Data { dia: d as i32 },
            tipo_do_dia(w),
            ids,
        ) == Ok::<EstadoEscala, ErroEscala>(b)
}

/// Day `d` of a period fails with `e` from the store `a`.
pub open spec fn falha(a: EstadoEscala, d: int, e: ErroEscala) -> bool {
    exists|w: u32, ids: Seq<String>|
        semana_de(d) == Some(w) && ids.len() == a.postos.len() && #[trigger] gerar_dia(
            a,
            Data { dia: d as i32 },
            tipo_do_dia(w),
            ids,
        ) == Err::<EstadoEscala, ErroEscala>(e)
}

/// The stores after each day of a period that starts on `ini`, the first being the
/// store before it.
pub open spec fn percurso(es: Seq<EstadoEscala>, ini: int) -> bool {
    forall|k: int| 0 <= k < es.len() - 1 ==> #[trigger] passo(es[k], ini + k, es[k + 1])
}

/// The store went from `a` to `b` by generating the days `ini .. ini + n - 1` in order.
pub open spec fn dias_gerados(a: EstadoEscala, b: EstadoEscala, ini: int, n: int) -> bool {
    exists|es: Seq<EstadoEscala>|
        es.len() == n + 1 && es[0] == a && es[n] == b && #[trigger] percurso(es, ini)
}

impl BaseEscala {
    /// Generates the roster of one day with fresh identifiers for its allocations.
    pub fn gerar_escala_diaria(&mut self, data: Data, tipo: TipoRotina) -> (r: Result<(), ErroEscala>)
        ensures
            exists|ids: Seq<String>| resultado_dia(old(self)@, final(self)@, r, data, tipo, ids),
    {
        let mut ids: Vec<String> = Vec::new();
        while ids.len() < self.postos.len()
            invariant
                ids@.len() <= self.postos@.len(),
            decreases self.postos@.len() - ids@.len(),
        {
            ids.push(nova_id());
        }
        let ghost g = ids@;
        let r = self.gerar_escala_diaria_com_ids(data, tipo, ids);
        assert(resultado_dia(old(self)@, self@, r, data, tipo, g));
        r
    }

    /// Generates every day from `inicio` to `fim` (both `YYYY-MM-DD`, both included), each
    /// with the duty type of its weekday, stopping at the first day that fails; the days
    /// before it stay generated. Returns the number of days generated.
    pub fn gerar_escala_periodo(&mut self, inicio: &str, fim: &str) -> (r: Result<u64, ErroPeriodo>)
        ensures
            match (dia_lido(inicio@), dia_lido(fim@)) {
                (Some(a), Some(b)) => if b < a {
                    r is Err && r->Err_0 is IntervaloInvalido && final(self)@ == old(self)@
                } else {
                    match r {
                        Ok(n) => n == b - a + 1 && dias_gerados(
                            old(self)@,
                            final(self)@,
                            a as int,
                            n as int,
                        ),
                        Err(ErroPeriodo::FalhaNoDia(d, e)) => a <= d.dia <= b && dias_gerados(
                            old(self)@,
                            final(self)@,
                            a as int,
                            d.dia - a,
                        ) && falha(final(self)@, d.dia as int, e),
                        Err(ErroPeriodo::ForaDoCalendario(d)) => a <= d.dia <= b && dias_gerados(
                            old(self)@,
                            final(self)@,
                            a as int,
                            d.dia - a,
                        ) && semana_de(d.dia as int) is None,
                        Err(_) => false,
                    }
                },
                _ => r is Err && r->Err_0 is DataInvalida && final(self)@ == old(self)@,
            },
    {
        let a = match ler_dia(inicio) {
            Some(a) => a,
            None => {
                return Err(ErroPeriodo::DataInvalida);
            },
        };
        let b = match ler_dia(fim) {
            Some(b) => b,
            None => {
                return Err(ErroPeriodo::DataInvalida);
            },
        };
        if b < a {
            return Err(ErroPeriodo::IntervaloInvalido);
        }
        let ghost mut es: Seq<EstadoEscala> = seq![self@];
        let ghost s0 = self@;
        let mut atual: i64 = a as i64;
        let mut feitos: u64 = 0;
        while atual <= b as i64
            invariant
                a <= b,
                dia_lido(inicio@) == Some(a),
                dia_lido(fim@) == Some(b),
                a <= atual <= b as i64 + 1,
                feitos == atual - a,
                s0 == old(self)@,
                es.len() == feitos + 1,
                es[0] == s0,
                es[feitos as int] == self@,
                percurso(es, a as int),
            decreases b as i64 + 1 - atual,
        {
            let dia = Data { dia: atual as i32 };
            let w = match dia_da_semana(atual as i32) {
                Some(w) => w,
                None => {
                    proof {
                        assert(dias_gerados(s0, self@, a as int, feitos as int));
                    }
                    return Err(ErroPeriodo::ForaDoCalendario(dia));
                },
            };
            let tipo = tipo_para_dia_semana(w);
            let ghost antes = self@;
            let res = self.gerar_escala_diaria(dia, tipo);
            let ghost ids = choose|ids: Seq<String>| resultado_dia(antes, self@, res, dia, tipo, ids);
            match res {
                Ok(()) => {
                    proof {
                        assert(passo(antes, atual as int, self@));
                        let es2 = es.push(self@);
                        assert forall|k: int| 0 <= k < es2.len() - 1 implies #[trigger] passo(
                            es2[k],
                            a + k,
                            es2[k + 1],
                        ) by {
                            if k < es.len() - 1 {
                                assert(passo(es[k], a + k, es[k + 1]));
                            }
                        }
                        es = es2;
                    }
                },
                Err(e) => {
                    proof {
                        assert(falha(self@, atual as int, e));
                        assert(dias_gerados(s0, self@, a as int, feitos as int));
                    }
                    return Err(ErroPeriodo::FalhaNoDia(dia, e));
                },
            }
            atual = atual + 1;
            feitos = feitos + 1;
        }
        proof {
            assert(dias_gerados(s0, self@, a as int, feitos as int));
        }
        Ok(feitos)
    }
}

} // verus!
