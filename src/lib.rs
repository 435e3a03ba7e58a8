pub mod busca;
pub mod leis;
pub mod escala;
pub mod exibicao;
mod externos;
pub mod modelos;
pub mod periodo;
pub mod presenca;
pub mod publicacao;
pub mod regeneracao;
pub mod selecao;
pub mod texto;
pub mod troca;
