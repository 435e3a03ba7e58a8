use vstd::prelude::*;
use crate::texto::{
    aparado, aparar, caracteres_iguais, decimal, pedacos, separar, texto_decimal, texto_igual,
};

verus! {

/// A calendar date, as its day number in the proleptic Gregorian calendar
/// (January 1 of year 1 is day 1).
#[derive(Clone, Copy, Debug, PartialEq, Eq, Structural)]
pub struct Data {
    pub dia: i32,
}

/// Duty type of a day: normal routine or weekend/holiday routine.
#[derive(Clone, Copy, Debug, PartialEq, Eq, Structural)]
pub enum TipoRotina {
    RN,
    RD,
}

impl TipoRotina {
    pub fn as_str(&self) -> (r: &'static str)
        ensures
            r@ == (match self {
                TipoRotina::RN => "RN"@,
                TipoRotina::RD => "RD"@,
            }),
    {
        match self {
            TipoRotina::RN => "RN",
            TipoRotina::RD => "RD",
        }
    }
}

impl TipoRotina {
    /// Reads a duty type as stored: `"RN"` is normal routine, anything else weekend
    /// routine.
    pub fn ler(s: &str) -> (r: TipoRotina)
        ensures
            r == (if s@ == "RN"@ {
                TipoRotina::RN
            } else {
                TipoRotina::RD
            }),
    {
        if texto_igual(s, "RN") {
            TipoRotina::RN
        } else {
            TipoRotina::RD
        }
    }
}

/// Lifecycle state of a day's roster.
#[derive(Clone, Copy, Debug, PartialEq, Eq, Structural)]
pub enum StatusEscala {
    Rascunho,
    Publicada,
}

impl StatusEscala {
    pub fn as_str(&self) -> (r: &'static str)
        ensures
            r@ == (match self {
                StatusEscala::Rascunho => "Rascunho"@,
                StatusEscala::Publicada => "Publicada"@,
            }),
    {
        match self {
            StatusEscala::Rascunho => "Rascunho",
            StatusEscala::Publicada => "Publicada",
        }
    }

    /// Reads a stored state: `"Publicada"` is published, anything else a draft.
    pub fn ler(s: &str) -> (r: StatusEscala)
        ensures
            r == (if s@ == "Publicada"@ {
                StatusEscala::Publicada
            } else {
                StatusEscala::Rascunho
            }),
    {
        if texto_igual(s, "Publicada") {
            StatusEscala::Publicada
        } else {
            StatusEscala::Rascunho
        }
    }
}

/// Lifecycle state of a swap request.
#[derive(Clone, Copy, Debug, PartialEq, Eq, Structural)]
pub enum StatusTroca {
    Pendente,
    AguardandoEscalante,
    Aprovada,
    Recusada,
}

impl StatusTroca {
    pub fn as_str(&self) -> (r: &'static str)
        ensures
            r@ == (match self {
                StatusTroca::Pendente => "Pendente"@,
                StatusTroca::AguardandoEscalante => "AguardandoEscalante"@,
                StatusTroca::Aprovada => "Aprovada"@,
                StatusTroca::Recusada => "Recusada"@,
            }),
    {
        match self {
            StatusTroca::Pendente => "Pendente",
            StatusTroca::AguardandoEscalante => "AguardandoEscalante",
            StatusTroca::Aprovada => "Aprovada",
            StatusTroca::Recusada => "Recusada",
        }
    }

    /// Reads a stored state; an unknown text counts as pending.
    pub fn ler(s: &str) -> (r: StatusTroca)
        ensures
            r == (if s@ == "AguardandoEscalante"@ {
                StatusTroca::AguardandoEscalante
            } else if s@ == "Aprovada"@ {
                StatusTroca::Aprovada
            } else if s@ == "Recusada"@ {
                StatusTroca::Recusada
            } else {
                StatusTroca::Pendente
            }),
    {
        if texto_igual(s, "AguardandoEscalante") {
            StatusTroca::AguardandoEscalante
        } else if texto_igual(s, "Aprovada") {
            StatusTroca::Aprovada
        } else if texto_igual(s, "Recusada") {
            StatusTroca::Recusada
        } else {
            StatusTroca::Pendente
        }
    }
}

/// A duty post, with its gender restriction and the seniority years it accepts
/// (comma-separated, e.g. `"1,2"`).
#[derive(Clone, Debug)]
pub struct Posto {
    pub id: i64,
    pub nome: String,
    pub genero_restricao: String,
    pub turmas_permitidas: String,
    pub peso: i64,
}

/// Whether a seniority year is one of the comma-separated entries of a post's list
/// (each entry compared after trimming white space).
pub open spec fn ano_aceito(turmas: Seq<char>, ano: int) -> bool {
    exists|k: int| 0 <= k < pedacos(turmas).len() && aparado(#[trigger] pedacos(turmas)[k]) == decimal(ano)
}

impl Posto {
    pub fn aceita_ano(&self, ano_user: i64) -> (r: bool)
        ensures
            r == ano_aceito(self.turmas_permitidas@, ano_user as int),
    {
        let alvo = texto_decimal(ano_user);
        let partes = separar(self.turmas_permitidas.as_str());
        let mut k: usize = 0;
        while k < partes.len()
            invariant
                alvo@ == decimal(ano_user as int),
                partes@.len() == pedacos(self.turmas_permitidas@).len(),
                forall|j: int| 0 <= j < partes@.len() ==> #[trigger] partes@[j]@ == pedacos(self.turmas_permitidas@)[j],
                k <= partes@.len(),
                forall|j: int| 0 <= j < k ==> aparado(#[trigger] pedacos(self.turmas_permitidas@)[j]) != decimal(ano_user as int),
            decreases partes@.len() - k,
        {
            let t = aparar(&partes[k]);
            if caracteres_iguais(&t, &alvo) {
                return true;
            }
            k = k + 1;
        }
        false
    }
}

/// A swap request: the requester asks that the substitute take over an allocation.
#[derive(Clone, Debug)]
pub struct Troca {
    pub id: String,
    pub solicitante_id: String,
    pub substituto_id: String,
    pub alocacao_id: String,
    pub status: StatusTroca,
    pub motivo: String,
    pub criado_em: Option<String>,
    pub data_resposta: Option<String>,
}

/// A window in which a person cannot be allocated, both ends included.
#[derive(Clone, Debug)]
pub struct Indisponibilidade {
    pub id: i64,
    pub user_id: String,
    pub data_inicio: Data,
    pub data_fim: Data,
    pub motivo: Option<String>,
}

/// A person as the allocator sees them: identity, seniority year, the two fairness
/// counters and the punishment balance.
#[derive(Clone, Debug)]
pub struct Candidato {
    pub id: String,
    pub name: String,
    pub genero: String,
    pub turma: String,
    pub ano: i64,
    pub servicos_rn: i64,
    pub servicos_rd: i64,
    pub saldo_punicoes: i64,
}

/// One person filling one post on one date.
#[derive(Clone, Debug)]
pub struct Alocacao {
    pub id: String,
    pub user_id: String,
    pub posto_id: i64,
    pub data: Data,
    pub is_punicao: bool,
}

/// The header of one day's roster.
#[derive(Clone, Copy, Debug, PartialEq, Eq, Structural)]
pub struct Escala {
    pub data: Data,
    pub tipo: TipoRotina,
    pub status: StatusEscala,
}

/// Request to generate every day of a period (dates as `YYYY-MM-DD`).
#[derive(Clone, Debug)]
pub struct GerarPeriodoRequest {
    pub data_inicio: String,
    pub data_fim: String,
}

/// Request to publish every draft day of a period (dates as `YYYY-MM-DD`).
#[derive(Clone, Debug)]
pub struct PublicarRequest {
    pub data_inicio: String,
    pub data_fim: String,
}

/// Request for a swap, as a requester submits it.
#[derive(Clone, Debug)]
pub struct PedidoTrocaPayload {
    pub alocacao_id: String,
    pub substituto_id: String,
    pub motivo: String,
    pub alocacao_substituto_id: Option<String>,
}

/// The substitute's answer to a swap request.
#[derive(Clone, Debug)]
pub struct RespostaTrocaForm {
    pub troca_id: String,
    pub acao: String,
}

/// One role held by an account.
#[derive(Clone, Debug)]
pub struct UserRole {
    pub user_id: String,
    pub role: String,
}

/// Why an operation on the roster was refused; each leaves the roster unchanged.
#[derive(Clone, Debug)]
pub enum ErroEscala {
    /// The day is published: reopen it with an erratum before regenerating.
    JaPublicada(Data),
    /// No admissible person for a post; carries its name and its accepted years.
    SemCandidato { posto: String, anos: String },
    /// A counter or balance would leave the range of `i64`.
    ContadorExcedido,
    /// No draft day in the range.
    NadaParaPublicar,
    /// The day exists but is a draft: there is nothing to reopen.
    NaoPublicada(Data),
    /// No roster was generated for the day.
    EscalaInexistente(Data),
    /// The allocation, or its day, does not exist.
    AlocacaoNaoEncontrada,
    /// The substitute holds another allocation within one day.
    Fadiga,
    /// No swap request with that identifier.
    TrocaNaoEncontrada,
    /// The request is not addressed to the person answering it.
    SemPermissao,
    /// The request was already answered.
    JaRespondida,
    /// No pending swap with that identifier, or its allocation or day is missing.
    TrocaInvalida,
}

impl Candidato {
    pub fn copia(&self) -> (r: Candidato)
        ensures
            r == *self,
    {
        Candidato {
            id: self.id.clone(),
            name: self.name.clone(),
            genero: self.genero.clone(),
            turma: self.turma.clone(),
            ano: self.ano,
            servicos_rn: self.servicos_rn,
            servicos_rd: self.servicos_rd,
            saldo_punicoes: self.saldo_punicoes,
        }
    }
}

pub fn copia_opcao(o: &Option<String>) -> (r: Option<String>)
    ensures
        r == *o,
{
    match o {
        Some(s) => Some(s.clone()),
        None => None,
    }
}

impl Troca {
    pub fn copia(&self) -> (r: Troca)
        ensures
            r == *self,
    {
        Troca {
            id: self.id.clone(),
            solicitante_id: self.solicitante_id.clone(),
            substituto_id: self.substituto_id.clone(),
            alocacao_id: self.alocacao_id.clone(),
            status: self.status,
            motivo: self.motivo.clone(),
            criado_em: copia_opcao(&self.criado_em),
            data_resposta: copia_opcao(&self.data_resposta),
        }
    }
}

impl Alocacao {
    pub fn copia(&self) -> (r: Alocacao)
        ensures
            r == *self,
    {
        Alocacao {
            id: self.id.clone(),
            user_id: self.user_id.clone(),
            posto_id: self.posto_id,
            data: self.data,
            is_punicao: self.is_punicao,
        }
    }
}

} // verus!
