use vstd::prelude::*;

verus! {

/// Characters with the Unicode `White_Space` property, which `str::trim` removes.
pub open spec fn espaco(c: char) -> bool {
    let u = c as u32;
    (0x09 <= u && u <= 0x0d) || u == 0x20 || u == 0x85 || u == 0xa0 || u == 0x1680 || (0x2000 <= u
        && u <= 0x200a) || u == 0x2028 || u == 0x2029 || u == 0x202f || u == 0x205f || u == 0x3000
}

/// The text without its leading and trailing white space.
pub open spec fn aparado(s: Seq<char>) -> Seq<char>
    decreases s.len(),
{
    if s.len() > 0 && espaco(s[0]) {
        aparado(s.drop_first())
    } else if s.len() > 0 && espaco(s.last()) {
        aparado(s.drop_last())
    } else {
        s
    }
}

/// The pieces of a text between its commas; a text with `n` commas has `n + 1` pieces.
pub open spec fn pedacos(s: Seq<char>) -> Seq<Seq<char>>
    decreases s.len(),
{
    if s.len() == 0 {
        seq![Seq::<char>::empty()]
    } else {
        let p = pedacos(s.drop_last());
        if s.last() == ',' {
            p.push(Seq::<char>::empty())
        } else {
            p.update(p.len() - 1, p.last().push(s.last()))
        }
    }
}

pub open spec fn digito(d: int) -> char {
    ((d + 48) as u8) as char
}

/// Decimal digits of a natural number, most significant first.
pub open spec fn digitos(n: nat) -> Seq<char>
    decreases n,
{
    if n < 10 {
        seq![digito(n as int)]
    } else {
        digitos(n / 10).push(digito((n % 10) as int))
    }
}

/// Decimal text of an integer, with a leading `-` when negative.
pub open spec fn decimal(n: int) -> Seq<char> {
    if n < 0 {
        seq!['-'] + digitos((-n) as nat)
    } else {
        digitos(n as nat)
    }
}

pub proof fn lemma_pedacos_nao_vazio(s: Seq<char>)
    ensures
        pedacos(s).len() >= 1,
    decreases s.len(),
{
    if s.len() > 0 {
        lemma_pedacos_nao_vazio(s.drop_last());
    }
}

pub fn eh_espaco(c: char) -> (r: bool)
    ensures
        r == espaco(c),
{
    let u = c as u32;
    (0x09 <= u && u <= 0x0d) || u == 0x20 || u == 0x85 || u == 0xa0 || u == 0x1680 || (0x2000 <= u
        && u <= 0x200a) || u == 0x2028 || u == 0x2029 || u == 0x202f || u == 0x205f || u == 0x3000
}

/// Equality of two texts, character by character.
pub fn texto_igual(a: &str, b: &str) -> (r: bool)
    ensures
        r == (a@ == b@),
{
    let n = a.unicode_len();
    if n != b.unicode_len() {
        return false;
    }
    let mut i: usize = 0;
    while i < n
        invariant
            n == a@.len(),
            n == b@.len(),
            i <= n,
            forall|k: int| 0 <= k < i ==> a@[k] == b@[k],
        decreases n - i,
    {
        if a.get_char(i) != b.get_char(i) {
            return false;
        }
        i = i + 1;
    }
    assert(a@ =~= b@);
    true
}

/// The characters of a text without leading and trailing white space.
pub fn aparar(s: &Vec<char>) -> (r: Vec<char>)
    ensures
        r@ == aparado(s@),
{
    let mut ini: usize = 0;
    let mut fim: usize = s.len();
    proof {
        assert(s@.subrange(0, fim as int) =~= s@);
    }
    while ini < fim && eh_espaco(s[ini])
        invariant
            0 <= ini <= fim <= s.len(),
            fim == s.len(),
            aparado(s@) == aparado(s@.subrange(ini as int, fim as int)),
        decreases fim - ini,
    {
        proof {
            let t = s@.subrange(ini as int, fim as int);
            assert(t.drop_first() =~= s@.subrange(ini + 1, fim as int));
        }
        ini = ini + 1;
    }
    while ini < fim && eh_espaco(s[fim - 1])
        invariant
            0 <= ini <= fim <= s.len(),
            ini < fim ==> !espaco(s@[ini as int]),
            aparado(s@) == aparado(s@.subrange(ini as int, fim as int)),
        decreases fim - ini,
    {
        proof {
            let t = s@.subrange(ini as int, fim as int);
            assert(t.drop_last() =~= s@.subrange(ini as int, fim - 1));
        }
        fim = fim - 1;
    }
    let mut r: Vec<char> = Vec::new();
    let mut k: usize = ini;
    while k < fim
        invariant
            ini <= k <= fim <= s.len(),
            r@ =~= s@.subrange(ini as int, k as int),
        decreases fim - k,
    {
        r.push(s[k]);
        k = k + 1;
    }
    proof {
        let t = s@.subrange(ini as int, fim as int);
        assert(r@ =~= t);
    }
    r
}

/// Splits a text at its commas.
pub fn separar(s: &str) -> (r: Vec<Vec<char>>)
    ensures
        r@.len() == pedacos(s@).len(),
        forall|k: int| 0 <= k < r@.len() ==> #[trigger] r@[k]@ == pedacos(s@)[k],
{
    let n = s.unicode_len();
    let mut r: Vec<Vec<char>> = Vec::new();
    let mut atual: Vec<char> = Vec::new();
    let mut i: usize = 0;
    proof {
        assert(s@.subrange(0, 0).len() == 0);
    }
    while i < n
        invariant
            n == s@.len(),
            i <= n,
            r@.len() + 1 == pedacos(s@.subrange(0, i as int)).len(),
            forall|k: int| 0 <= k < r@.len() ==> #[trigger] r@[k]@ == pedacos(s@.subrange(0, i as int))[k],
            atual@ == pedacos(s@.subrange(0, i as int)).last(),
        decreases n - i,
    {
        let c = s.get_char(i);
        proof {
            let t = s@.subrange(0, i + 1);
            assert(t.drop_last() =~= s@.subrange(0, i as int));
            assert(t.last() == c);
            lemma_pedacos_nao_vazio(s@.subrange(0, i as int));
        }
        if c == ',' {
            r.push(atual);
            atual = Vec::new();
        } else {
            atual.push(c);
        }
        i = i + 1;
    }
    proof {
        assert(s@.subrange(0, n as int) =~= s@);
    }
    r.push(atual);
    r
}

/// Decimal text of an integer, as `i64::to_string` writes it.
pub fn texto_decimal(n: i64) -> (r: Vec<char>)
    ensures
        r@ == decimal(n as int),
{
    let negativo = n < 0;
    let mut m: u64 = if negativo {
        (0i128 - (n as i128)) as u64
    } else {
        n as u64
    };
    let ghost total: nat = m as nat;
    // digits are produced least significant first, then reversed
    let mut inv: Vec<char> = Vec::new();
    let mut primeiro = true;
    while primeiro || m > 0
        invariant
            primeiro ==> m as nat == total && inv@.len() == 0,
            !primeiro ==> if m == 0 {
                digitos(total) == rev(inv@)
            } else {
                digitos(total) == digitos(m as nat) + rev(inv@)
            },
        decreases if primeiro {
            m as int + 1
        } else {
            m as int
        },
    {
        let d = m % 10;
        let c = ((d as u8) + 48) as char;
        proof {
            if primeiro {
                assert(rev(inv@) =~= Seq::<char>::empty());
                assert(digitos(total) =~= digitos(m as nat) + rev(inv@));
            }
            assert(c == digito((m % 10) as int));
            assert(rev(inv@.push(c)) =~= seq![c] + rev(inv@));
            lemma_digitos_passo(m as nat);
            if m >= 10 {
                assert(digitos(m as nat) + rev(inv@) =~= digitos((m / 10) as nat) + (seq![c] + rev(
                    inv@,
                )));
            } else {
                assert(digitos(m as nat) + rev(inv@) =~= seq![c] + rev(inv@));
            }
        }
        inv.push(c);
        m = m / 10;
        primeiro = false;
    }
    let mut r: Vec<char> = Vec::new();
    if negativo {
        r.push('-');
    }
    let ghost base = r@;
    let mut k: usize = inv.len();
    while k > 0
        invariant
            k <= inv@.len(),
            r@ == base + rev(inv@).subrange(0, (inv@.len() - k) as int),
        decreases k,
    {
        k = k - 1;
        r.push(inv[k]);
        proof {
            assert(rev(inv@)[(inv@.len() - k - 1) as int] == inv@[k as int]);
            assert(r@ =~= base + rev(inv@).subrange(0, (inv@.len() - k) as int));
        }
    }
    proof {
        assert(rev(inv@).subrange(0, inv@.len() as int) =~= rev(inv@));
        if negativo {
            assert(base =~= seq!['-']);
        } else {
            assert(base =~= Seq::<char>::empty());
        }
    }
    r
}

/// Equality of two character sequences.
pub fn caracteres_iguais(a: &Vec<char>, b: &Vec<char>) -> (r: bool)
    ensures
        r == (a@ == b@),
{
    if a.len() != b.len() {
        return false;
    }
    let mut i: usize = 0;
    while i < a.len()
        invariant
            a@.len() == b@.len(),
            i <= a@.len(),
            forall|k: int| 0 <= k < i ==> a@[k] == b@[k],
        decreases a@.len() - i,
    {
        if a[i] != b[i] {
            return false;
        }
        i = i + 1;
    }
    assert(a@ =~= b@);
    true
}

pub open spec fn rev(s: Seq<char>) -> Seq<char> {
    Seq::new(s.len(), |i: int| s[s.len() - 1 - i])
}

proof fn lemma_digitos_passo(m: nat)
    ensures
        m >= 10 ==> digitos(m) == digitos(m / 10).push(digito((m % 10) as int)),
        m < 10 ==> digitos(m) == seq![digito((m % 10) as int)],
{
}

} // verus!
