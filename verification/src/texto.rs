//! Text handling shared by the catalogue and the sale system: reading the
//! characters of a string, comparing names without regard to ASCII case,
//! substring search, the order of strings, and reading integers the way
//! `str::parse` does.
use vstd::prelude::*;
use vstd::string::StrSliceExecFns;

verus! {

/// The characters of `s`, in order.
pub fn caracteres(s: &str) -> (r: Vec<char>)
    ensures
        r@ == s@,
{
    let n = s.unicode_len();
    let mut r: Vec<char> = Vec::new();
    let mut i: usize = 0;
    while i < n
        invariant
            n == s@.len(),
            i <= n,
            r@ == s@.subrange(0, i as int),
        decreases n - i,
    {
        r.push(s.get_char(i));
        i = i + 1;
    }
    assert(r@ =~= s@);
    r
}

// ---------------------------------------------------------------------------
// ASCII case
// ---------------------------------------------------------------------------

/// The code of `c` once an ASCII capital letter is turned into its small letter.
pub open spec fn codigo_sin_mayuscula(c: char) -> u32 {
    let v = c as u32;
    if 65 <= v && v <= 90 {
        (v + 32) as u32
    } else {
        v
    }
}

/// `a` and `b` are equal once ASCII capitals are turned into small letters,
/// which is what `str::eq_ignore_ascii_case` decides.
pub open spec fn iguales_sin_mayusculas(a: Seq<char>, b: Seq<char>) -> bool {
    &&& a.len() == b.len()
    &&& forall|i: int|
        0 <= i < a.len() ==> codigo_sin_mayuscula(#[trigger] a[i]) == codigo_sin_mayuscula(b[i])
}

fn minuscula_ascii(c: char) -> (r: u32)
    ensures
        r == codigo_sin_mayuscula(c),
{
    let v = c as u32;
    if 65 <= v && v <= 90 {
        v + 32
    } else {
        v
    }
}

/// Whether `a` and `b` are equal without regard to ASCII case.
pub fn iguales_ignorando_mayusculas(a: &str, b: &str) -> (r: bool)
    ensures
        r == iguales_sin_mayusculas(a@, b@),
{
    let x = caracteres(a);
    let y = caracteres(b);
    if x.len() != y.len() {
        return false;
    }
    let mut i: usize = 0;
    while i < x.len()
        invariant
            x@ == a@,
            y@ == b@,
            x.len() == y.len(),
            i <= x.len(),
            forall|j: int|
                0 <= j < i ==> codigo_sin_mayuscula(#[trigger] x@[j]) == codigo_sin_mayuscula(
                    y@[j],
                ),
        decreases x.len() - i,
    {
        if minuscula_ascii(x[i]) != minuscula_ascii(y[i]) {
            return false;
        }
        i = i + 1;
    }
    true
}

/// Equality without regard to ASCII case is an equivalence: reflexive,
/// symmetric and transitive.
pub proof fn iguales_sin_mayusculas_es_equivalencia(a: Seq<char>, b: Seq<char>, c: Seq<char>)
    ensures
        iguales_sin_mayusculas(a, a),
        iguales_sin_mayusculas(a, b) ==> iguales_sin_mayusculas(b, a),
        iguales_sin_mayusculas(a, b) && iguales_sin_mayusculas(b, c) ==> iguales_sin_mayusculas(
            a,
            c,
        ),
{
    if iguales_sin_mayusculas(a, b) && iguales_sin_mayusculas(b, c) {
        assert forall|i: int| 0 <= i < a.len() implies codigo_sin_mayuscula(#[trigger] a[i])
            == codigo_sin_mayuscula(c[i]) by {
            assert(codigo_sin_mayuscula(a[i]) == codigo_sin_mayuscula(b[i]));
            assert(codigo_sin_mayuscula(b[i]) == codigo_sin_mayuscula(c[i]));
        }
    }
    if iguales_sin_mayusculas(a, b) {
        assert forall|i: int| 0 <= i < b.len() implies codigo_sin_mayuscula(#[trigger] b[i])
            == codigo_sin_mayuscula(a[i]) by {
            assert(codigo_sin_mayuscula(a[i]) == codigo_sin_mayuscula(b[i]));
        }
    }
}

/// Two names are equal without regard to ASCII case exactly when they have
/// the same length and, position by position, their characters are the same
/// or one is a capital letter from 'A' to 'Z' and the other its small letter.
pub proof fn iguales_sin_mayusculas_letra_a_letra(a: Seq<char>, b: Seq<char>)
    ensures
        iguales_sin_mayusculas(a, b) <==> a.len() == b.len() && forall|i: int|
            0 <= i < a.len() ==> {
                let x = (#[trigger] a[i]) as u32;
                let y = b[i] as u32;
                ||| x == y
                ||| 65 <= x <= 90 && y == x + 32
                ||| 65 <= y <= 90 && x == y + 32
            },
{
    if a.len() == b.len() {
        assert forall|i: int| 0 <= i < a.len() implies (codigo_sin_mayuscula(#[trigger] a[i])
            == codigo_sin_mayuscula(b[i]) <==> {
            let x = a[i] as u32;
            let y = b[i] as u32;
            ||| x == y
            ||| 65 <= x <= 90 && y == x + 32
            ||| 65 <= y <= 90 && x == y + 32
        }) by {}
    }
}

// ---------------------------------------------------------------------------
// Substrings
// ---------------------------------------------------------------------------

/// `p` occurs in `s` as a run of consecutive characters (the empty string
/// occurs in every string).
pub open spec fn contiene(s: Seq<char>, p: Seq<char>) -> bool {
    exists|i: int| 0 <= i && i + p.len() <= s.len() && #[trigger] s.subrange(i, i + p.len()) == p
}

/// A text contains every run of its own consecutive characters, wherever it
/// stands, and never a pattern longer than itself.
pub proof fn contiene_sus_tramos(s: Seq<char>, p: Seq<char>, i: int, j: int)
    requires
        0 <= i <= j <= s.len(),
    ensures
        contiene(s, s.subrange(i, j)),
        p.len() > s.len() ==> !contiene(s, p),
{
    assert(s.subrange(i, i + s.subrange(i, j).len()) == s.subrange(i, j));
}

fn coincide_en(s: &Vec<char>, p: &Vec<char>, i: usize) -> (r: bool)
    requires
        i + p.len() <= s.len(),
    ensures
        r == (s@.subrange(i as int, i + p.len()) == p@),
{
    let mut j: usize = 0;
    while j < p.len()
        invariant
            i + p.len() <= s.len(),
            j <= p.len(),
            forall|k: int| 0 <= k < j ==> s@[i + k] == #[trigger] p@[k],
        decreases p.len() - j,
    {
        if s[i + j] != p[j] {
            assert(s@.subrange(i as int, i + p.len())[j as int] != p@[j as int]);
            return false;
        }
        j = j + 1;
    }
    assert(s@.subrange(i as int, i + p.len()) =~= p@);
    true
}

/// Whether `p` occurs in `s`, as `str::contains` decides for a pattern string.
pub fn contiene_texto(s: &Vec<char>, p: &Vec<char>) -> (r: bool)
    ensures
        r == contiene(s@, p@),
{
    if p.len() == 0 {
        assert(s@.subrange(0, 0int + p@.len()) =~= p@);
        return true;
    }
    if p.len() > s.len() {
        return false;
    }
    let ultimo = s.len() - p.len();
    let mut i: usize = 0;
    while i <= ultimo
        invariant
            ultimo == s.len() - p.len(),
            0 < p.len() <= s.len(),
            i <= ultimo + 1,
            forall|k: int| 0 <= k < i ==> #[trigger] s@.subrange(k, k + p.len()) != p@,
        decreases ultimo + 1 - i,
    {
        if coincide_en(s, p, i) {
            return true;
        }
        i = i + 1;
    }
    false
}

// ---------------------------------------------------------------------------
// Order of strings
// ---------------------------------------------------------------------------

/// `a` comes strictly before `b` in the order of `String`: character by
/// character by code point, a proper prefix first.
pub open spec fn precede(a: Seq<char>, b: Seq<char>) -> bool
    decreases a.len(),
{
    if a.len() == 0 {
        b.len() > 0
    } else if b.len() == 0 {
        false
    } else if a[0] != b[0] {
        (a[0] as u32) < (b[0] as u32)
    } else {
        precede(a.drop_first(), b.drop_first())
    }
}

proof fn precede_irreflexivo(a: Seq<char>)
    ensures
        !precede(a, a),
    decreases a.len(),
{
    if a.len() > 0 {
        precede_irreflexivo(a.drop_first());
    }
}

proof fn precede_total(a: Seq<char>, b: Seq<char>)
    ensures
        a != b ==> precede(a, b) || precede(b, a),
        precede(a, b) ==> !precede(b, a) && a != b,
    decreases a.len(),
{
    precede_irreflexivo(a);
    if a.len() > 0 && b.len() > 0 && a[0] != b[0] {
        vstd::utf8::char_u32_cast(a[0], a[0] as u32);
        vstd::utf8::char_u32_cast(b[0], b[0] as u32);
    }
    if a.len() > 0 && b.len() > 0 && a[0] == b[0] {
        precede_total(a.drop_first(), b.drop_first());
        if a.drop_first() == b.drop_first() {
            assert(a =~= seq![a[0]] + a.drop_first());
            assert(b =~= seq![b[0]] + b.drop_first());
        }
    }
    if a.len() == 0 && b.len() == 0 {
        assert(a =~= b);
    }
}

proof fn precede_transitivo(a: Seq<char>, b: Seq<char>, c: Seq<char>)
    ensures
        precede(a, b) && precede(b, c) ==> precede(a, c),
    decreases a.len(),
{
    if a.len() > 0 && b.len() > 0 && c.len() > 0 {
        precede_transitivo(a.drop_first(), b.drop_first(), c.drop_first());
    }
}

/// The order of strings is a strict total order: irreflexive, transitive, and
/// any two different strings are ordered one way or the other.
pub proof fn precede_es_orden_total(a: Seq<char>, b: Seq<char>, c: Seq<char>)
    ensures
        !precede(a, a),
        precede(a, b) && precede(b, c) ==> precede(a, c),
        a != b ==> precede(a, b) || precede(b, a),
        precede(a, b) ==> !precede(b, a),
{
    precede_irreflexivo(a);
    precede_transitivo(a, b, c);
    precede_total(a, b);
}

proof fn precede_tras_prefijo(a: Seq<char>, b: Seq<char>, k: int)
    requires
        0 <= k <= a.len(),
        k <= b.len(),
        a.subrange(0, k) == b.subrange(0, k),
    ensures
        precede(a, b) == precede(a.subrange(k, a.len() as int), b.subrange(k, b.len() as int)),
    decreases k,
{
    if k > 0 {
        assert(a[0] == a.subrange(0, k)[0]);
        assert(b[0] == b.subrange(0, k)[0]);
        assert(a.drop_first().subrange(0, k - 1) =~= a.subrange(0, k).drop_first());
        assert(b.drop_first().subrange(0, k - 1) =~= b.subrange(0, k).drop_first());
        precede_tras_prefijo(a.drop_first(), b.drop_first(), k - 1);
        assert(a.drop_first().subrange(k - 1, a.len() - 1) =~= a.subrange(k, a.len() as int));
        assert(b.drop_first().subrange(k - 1, b.len() - 1) =~= b.subrange(k, b.len() as int));
    } else {
        assert(a.subrange(0, a.len() as int) =~= a);
        assert(b.subrange(0, b.len() as int) =~= b);
    }
}

/// The order of strings decides at the first position where two strings
/// differ, by code point, and a proper prefix comes before the longer
/// string.
pub proof fn precede_por_primera_diferencia(a: Seq<char>, b: Seq<char>, k: int)
    requires
        0 <= k <= a.len(),
        k <= b.len(),
        a.subrange(0, k) == b.subrange(0, k),
    ensures
        k == a.len() && k < b.len() ==> precede(a, b),
        k < a.len() && k < b.len() && (a[k] as u32) < (b[k] as u32) ==> precede(a, b) && !precede(
            b,
            a,
        ),
{
    precede_tras_prefijo(a, b, k);
    precede_tras_prefijo(b, a, k);
    let ra = a.subrange(k, a.len() as int);
    let rb = b.subrange(k, b.len() as int);
    if k < a.len() && k < b.len() {
        assert(ra[0] == a[k] && rb[0] == b[k]);
        if (a[k] as u32) < (b[k] as u32) {
            assert(a[k] != b[k]);
        }
    }
}

/// How two strings compare in the order of `String`.
pub enum Orden {
    Antes,
    Igual,
    Despues,
}

/// Compares `a` with `b` in the order of `String`.
pub fn comparar(a: &Vec<char>, b: &Vec<char>) -> (r: Orden)
    ensures
        r is Antes <==> precede(a@, b@),
        r is Igual <==> a@ == b@,
        r is Despues <==> precede(b@, a@),
{
    let mut k: usize = 0;
    while k < a.len() && k < b.len() && a[k] == b[k]
        invariant
            k <= a.len(),
            k <= b.len(),
            a@.subrange(0, k as int) == b@.subrange(0, k as int),
        decreases a.len() - k,
    {
        assert(a@.subrange(0, k + 1) =~= a@.subrange(0, k as int).push(a@[k as int]));
        assert(b@.subrange(0, k + 1) =~= b@.subrange(0, k as int).push(b@[k as int]));
        k = k + 1;
    }
    proof {
        precede_tras_prefijo(a@, b@, k as int);
        precede_tras_prefijo(b@, a@, k as int);
        precede_total(a@, b@);
    }
    let ghost ra = a@.subrange(k as int, a.len() as int);
    let ghost rb = b@.subrange(k as int, b.len() as int);
    if k == a.len() && k == b.len() {
        assert(a@ =~= a@.subrange(0, k as int));
        assert(b@ =~= b@.subrange(0, k as int));
        Orden::Igual
    } else if k == a.len() {
        assert(ra.len() == 0 && rb.len() > 0);
        assert(a@ != b@);
        Orden::Antes
    } else if k == b.len() {
        assert(rb.len() == 0 && ra.len() > 0);
        assert(a@ != b@);
        Orden::Despues
    } else if (a[k] as u32) < (b[k] as u32) {
        assert(ra[0] == a@[k as int] && rb[0] == b@[k as int]);
        assert(a@[k as int] != b@[k as int]);
        assert(a@ != b@);
        Orden::Antes
    } else {
        assert(ra[0] == a@[k as int] && rb[0] == b@[k as int]);
        assert(a@[k as int] != b@[k as int]);
        assert(a@ != b@);
        Orden::Despues
    }
}

/// Whether `a` and `b` hold the same characters.
pub fn mismo_texto(a: &Vec<char>, b: &Vec<char>) -> (r: bool)
    ensures
        r == (a@ == b@),
{
    match comparar(a, b) {
        Orden::Igual => true,
        _ => false,
    }
}

// ---------------------------------------------------------------------------
// Reading integers
// ---------------------------------------------------------------------------

pub open spec fn es_digito(c: char) -> bool {
    48 <= (c as u32) && (c as u32) <= 57
}

pub open spec fn valor_digito(c: char) -> int {
    (c as u32) - 48
}

pub open spec fn todos_digitos(s: Seq<char>) -> bool {
    forall|i: int| 0 <= i < s.len() ==> es_digito(#[trigger] s[i])
}

/// The value of a run of decimal digits.
pub open spec fn valor_decimal(s: Seq<char>) -> int
    decreases s.len(),
{
    if s.len() == 0 {
        0
    } else {
        valor_decimal(s.drop_last()) * 10 + valor_digito(s.last())
    }
}

/// The integer written in `s` as `str::parse` reads it for an integer type,
/// before its range is checked: an optional `+` (or `-` where `con_signo`),
/// then one or more ASCII digits and nothing else.
pub open spec fn entero_escrito(s: Seq<char>, con_signo: bool) -> Option<int> {
    if s.len() > 0 && s[0] == '+' {
        let d = s.drop_first();
        if d.len() > 0 && todos_digitos(d) {
            Some(valor_decimal(d))
        } else {
            None
        }
    } else if con_signo && s.len() > 0 && s[0] == '-' {
        let d = s.drop_first();
        if d.len() > 0 && todos_digitos(d) {
            Some(-valor_decimal(d))
        } else {
            None
        }
    } else if s.len() > 0 && todos_digitos(s) {
        Some(valor_decimal(s))
    } else {
        None
    }
}

/// What `str::parse` gives for an integer type whose values run from `min` to
/// `max`: the integer written in `s` if it lies in that range, else nothing.
pub open spec fn entero_leido(s: Seq<char>, con_signo: bool, min: int, max: int) -> Option<int> {
    match entero_escrito(s, con_signo) {
        Some(v) => if min <= v && v <= max {
            Some(v)
        } else {
            None
        },
        None => None,
    }
}

pub open spec fn lectura_u128(s: Seq<char>) -> Option<int> {
    entero_leido(s, false, 0, u128::MAX as int)
}

pub open spec fn lectura_usize(s: Seq<char>) -> Option<int> {
    entero_leido(s, false, 0, usize::MAX as int)
}

pub open spec fn lectura_i64(s: Seq<char>) -> Option<int> {
    entero_leido(s, true, i64::MIN as int, i64::MAX as int)
}

pub open spec fn lectura_i32(s: Seq<char>) -> Option<int> {
    entero_leido(s, true, i32::MIN as int, i32::MAX as int)
}

proof fn valor_decimal_creciente(s: Seq<char>, k: int)
    requires
        0 <= k <= s.len(),
        todos_digitos(s),
    ensures
        valor_decimal(s.subrange(0, k)) <= valor_decimal(s),
        0 <= valor_decimal(s),
    decreases s.len(),
{
    if s.len() > 0 {
        assert(todos_digitos(s.drop_last()));
        assert(es_digito(s[s.len() - 1]));
        if k == s.len() {
            assert(s.subrange(0, k) =~= s);
            valor_decimal_creciente(s.drop_last(), 0);
        } else {
            assert(s.drop_last().subrange(0, k) =~= s.subrange(0, k));
            valor_decimal_creciente(s.drop_last(), k);
        }
    } else {
        assert(s.subrange(0, k) =~= s);
    }
}

/// The value of the digits of `cs` from `desde` on, where they are all digits,
/// there is at least one, and the value fits in a `u128`.
fn magnitud(cs: &Vec<char>, desde: usize) -> (r: Option<u128>)
    requires
        desde <= cs.len(),
    ensures
        ({
            let d = cs@.subrange(desde as int, cs.len() as int);
            match r {
                Some(m) => d.len() > 0 && todos_digitos(d) && m == valor_decimal(d),
                None => !(d.len() > 0 && todos_digitos(d)) || valor_decimal(d) > u128::MAX,
            }
        }),
{
    let ghost d = cs@.subrange(desde as int, cs.len() as int);
    if desde == cs.len() {
        return None;
    }
    let mut acc: u128 = 0;
    let mut i: usize = desde;
    while i < cs.len()
        invariant
            desde <= i <= cs.len(),
            d == cs@.subrange(desde as int, cs.len() as int),
            todos_digitos(cs@.subrange(desde as int, i as int)),
            acc == valor_decimal(cs@.subrange(desde as int, i as int)),
        decreases cs.len() - i,
    {
        let c = cs[i];
        let v = c as u32;
        if v < 48 || v > 57 {
            assert(d[i - desde] == c);
            return None;
        }
        let ghost antes = cs@.subrange(desde as int, i as int);
        let ghost despues = cs@.subrange(desde as int, i + 1);
        assert(despues.drop_last() =~= antes);
        assert(despues.last() == c);
        assert(todos_digitos(despues));
        let digito: u128 = (v - 48) as u128;
        match acc.checked_mul(10) {
            Some(por_diez) => match por_diez.checked_add(digito) {
                Some(nuevo) => {
                    acc = nuevo;
                },
                None => {
                    proof {
                        if todos_digitos(d) {
                            assert(despues =~= d.subrange(0, i + 1 - desde));
                            valor_decimal_creciente(d, i + 1 - desde);
                        }
                    }
                    return None;
                },
            },
            None => {
                proof {
                    valor_decimal_creciente(despues, 0);
                    if todos_digitos(d) {
                        assert(despues =~= d.subrange(0, i + 1 - desde));
                        valor_decimal_creciente(d, i + 1 - desde);
                    }
                }
                return None;
            },
        }
        i = i + 1;
    }
    Some(acc)
}

/// An integer as `str::parse` reads it, before its range is checked: whether
/// it is negative and its magnitude, where the magnitude fits in a `u128`.
fn leer_entero(cs: &Vec<char>, con_signo: bool) -> (r: Option<(bool, u128)>)
    ensures
        r matches Some((negativo, _)) ==> con_signo || !negativo,
        match r {
            Some((negativo, m)) => entero_escrito(cs@, con_signo) == Some(
                if negativo {
                    -(m as int)
                } else {
                    m as int
                },
            ),
            None => match entero_escrito(cs@, con_signo) {
                Some(v) => v > u128::MAX || -v > u128::MAX,
                None => true,
            },
        },
{
    if cs.len() > 0 && cs[0] == '+' {
        assert(cs@.subrange(1, cs.len() as int) =~= cs@.drop_first());
        match magnitud(cs, 1) {
            Some(m) => Some((false, m)),
            None => None,
        }
    } else if con_signo && cs.len() > 0 && cs[0] == '-' {
        assert(cs@.subrange(1, cs.len() as int) =~= cs@.drop_first());
        match magnitud(cs, 1) {
            Some(m) => Some((true, m)),
            None => None,
        }
    } else {
        assert(cs@.subrange(0, cs.len() as int) =~= cs@);
        match magnitud(cs, 0) {
            Some(m) => Some((false, m)),
            None => None,
        }
    }
}

/// Reads a `u128` as `str::parse::<u128>` does.
pub fn leer_u128(cs: &Vec<char>) -> (r: Option<u128>)
    ensures
        match r {
            Some(x) => lectura_u128(cs@) == Some(x as int),
            None => lectura_u128(cs@) is None,
        },
{
    match leer_entero(cs, false) {
        Some((_, m)) => Some(m),
        None => None,
    }
}

/// Reads a `usize` as `str::parse::<usize>` does.
pub fn leer_usize(cs: &Vec<char>) -> (r: Option<usize>)
    ensures
        match r {
            Some(x) => lectura_usize(cs@) == Some(x as int),
            None => lectura_usize(cs@) is None,
        },
{
    match leer_entero(cs, false) {
        Some((_, m)) => {
            if m <= usize::MAX as u128 {
                Some(m as usize)
            } else {
                None
            }
        },
        None => None,
    }
}

/// Reads an `i64` as `str::parse::<i64>` does.
pub fn leer_i64(cs: &Vec<char>) -> (r: Option<i64>)
    ensures
        match r {
            Some(x) => lectura_i64(cs@) == Some(x as int),
            None => lectura_i64(cs@) is None,
        },
{
    match leer_entero(cs, true) {
        Some((negativo, m)) => {
            if negativo {
                if m <= 9223372036854775808u128 {
                    if m == 9223372036854775808u128 {
                        Some(i64::MIN)
                    } else {
                        let x = m as i64;
                        Some(-x)
                    }
                } else {
                    None
                }
            } else {
                if m <= 9223372036854775807u128 {
                    Some(m as i64)
                } else {
                    None
                }
            }
        },
        None => None,
    }
}

/// Reads an `i32` as `str::parse::<i32>` does.
pub fn leer_i32(cs: &Vec<char>) -> (r: Option<i32>)
    ensures
        match r {
            Some(x) => lectura_i32(cs@) == Some(x as int),
            None => lectura_i32(cs@) is None,
        },
{
    match leer_entero(cs, true) {
        Some((negativo, m)) => {
            if negativo {
                if m <= 2147483648u128 {
                    if m == 2147483648u128 {
                        Some(i32::MIN)
                    } else {
                        let x = m as i32;
                        Some(-x)
                    }
                } else {
                    None
                }
            } else {
                if m <= 2147483647u128 {
                    Some(m as i32)
                } else {
                    None
                }
            }
        },
        None => None,
    }
}

// ---------------------------------------------------------------------------
// Case and character classes of the standard library
// ---------------------------------------------------------------------------

/// The characters of what `str::to_lowercase` returns for a string with the
/// characters `s`.
pub uninterp spec fn minusculas(s: Seq<char>) -> Seq<char>;

/// Calls `str::to_lowercase`. The contract claims only that the result is
/// the function `minusculas` of the characters of `s`: the Unicode case
/// tables that the standard library applies are not restated.
#[verifier::external_body]
pub(crate) fn a_minusculas(s: &str) -> (r: String)
    ensures
        r@ == minusculas(s@),
{
    s.to_lowercase()
}

/// What `char::is_numeric` returns for `c`.
pub uninterp spec fn es_numerico(c: char) -> bool;

/// Calls `char::is_numeric`. The contract claims only that the result is the
/// function `es_numerico` of `c`: the Unicode general categories that decide
/// it are not restated.
#[verifier::external_body]
fn numerico(c: char) -> (r: bool)
    ensures
        r == es_numerico(c),
{
    c.is_numeric()
}

/// The characters of `s` for which `char::is_numeric` holds, in order.
pub open spec fn solo_numericos(s: Seq<char>) -> Seq<char>
    decreases s.len(),
{
    if s.len() == 0 {
        seq![]
    } else if es_numerico(s.last()) {
        solo_numericos(s.drop_last()).push(s.last())
    } else {
        solo_numericos(s.drop_last())
    }
}

/// Keeping the numeric characters keeps every numeric character and nothing
/// else, never lengthens the text, and leaves a text of numeric characters
/// as it is.
pub proof fn solo_numericos_conserva_los_numericos(s: Seq<char>)
    ensures
        solo_numericos(s).len() <= s.len(),
        forall|c: char| #[trigger] solo_numericos(s).contains(c) <==> s.contains(c) && es_numerico(c),
        (forall|i: int| 0 <= i < s.len() ==> es_numerico(#[trigger] s[i])) ==> solo_numericos(s)
            == s,
    decreases s.len(),
{
    if s.len() > 0 {
        let t = s.drop_last();
        solo_numericos_conserva_los_numericos(t);
        assert forall|c: char| #[trigger] solo_numericos(s).contains(c) <==> s.contains(c)
            && es_numerico(c) by {
            if solo_numericos(s).contains(c) {
                let k = choose|k: int| 0 <= k < solo_numericos(s).len() && solo_numericos(s)[k] == c;
                if es_numerico(s.last()) && k == solo_numericos(s).len() - 1 {
                    assert(s[s.len() - 1] == c);
                } else {
                    assert(solo_numericos(t)[k] == c);
                    assert(solo_numericos(t).contains(c));
                    let j = choose|j: int| 0 <= j < t.len() && t[j] == c;
                    assert(s[j] == c);
                }
            }
            if s.contains(c) && es_numerico(c) {
                let j = choose|j: int| 0 <= j < s.len() && s[j] == c;
                if j == s.len() - 1 {
                    assert(solo_numericos(s).last() == c);
                } else {
                    assert(t[j] == c);
                    assert(t.contains(c));
                    assert(solo_numericos(t).contains(c));
                    let k = choose|k: int| 0 <= k < solo_numericos(t).len() && solo_numericos(t)[k] == c;
                    assert(solo_numericos(s)[k] == c);
                }
            }
        }
        if forall|i: int| 0 <= i < s.len() ==> es_numerico(#[trigger] s[i]) {
            assert forall|i: int| 0 <= i < t.len() implies es_numerico(#[trigger] t[i]) by {
                assert(s[i] == t[i]);
            }
            assert(es_numerico(s[s.len() - 1]));
            assert(solo_numericos(s) =~= s);
        }
    }
}

/// Keeps the numeric characters of `cs`, in order.
pub fn filtrar_numericos(cs: &Vec<char>) -> (r: Vec<char>)
    ensures
        r@ == solo_numericos(cs@),
{
    let mut r: Vec<char> = Vec::new();
    let mut i: usize = 0;
    while i < cs.len()
        invariant
            i <= cs.len(),
            r@ == solo_numericos(cs@.subrange(0, i as int)),
        decreases cs.len() - i,
    {
        assert(cs@.subrange(0, i + 1).drop_last() =~= cs@.subrange(0, i as int));
        if numerico(cs[i]) {
            r.push(cs[i]);
        }
        i = i + 1;
    }
    assert(cs@.subrange(0, cs.len() as int) =~= cs@);
    r
}

} // verus!
