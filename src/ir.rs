use vstd::prelude::*;
use crate::text::{
    arr_kw,
    arr_kw_bytes,
    call_kw,
    call_kw_bytes,
    cond_end,
    cond_end_bytes,
    cond_kw,
    cond_kw_bytes,
    int_kw,
    int_kw_bytes,
    lbracket,
    lbracket_bytes,
    lparen,
    lparen_bytes,
    mov_kw,
    mov_kw_bytes,
    nl,
    nl_bytes,
    pct,
    pct_bytes,
    plus,
    plus_bytes,
    rbracket_nl,
    rbracket_nl_bytes,
    rbracket_sep,
    rbracket_sep_bytes,
    sep,
    sep_bytes,
    space,
    space_bytes,
    temp,
    temp_bytes,
};

verus! {

/// The decimal digits of `n`, most significant first, without leading zeros.
pub open spec fn decimal(n: nat) -> Seq<u8>
    decreases n,
{
    if n < 10 {
        seq![(48 + n) as u8]
    } else {
        decimal(n / 10).push((48 + n % 10) as u8)
    }
}

/// The name of the temporary numbered `t`.
pub open spec fn temp_name(t: int) -> Seq<u8> {
    temp() + decimal(t as nat)
}

/// `%OP D, L, R`: a binary operation into `d`.
pub open spec fn bin_line(op: Seq<u8>, d: Seq<u8>, l: Seq<u8>, r: Seq<u8>) -> Seq<u8> {
    pct() + op + space() + d + sep() + l + sep() + r + nl()
}

/// `%int X`: a scalar declaration.
pub open spec fn int_line(x: Seq<u8>) -> Seq<u8> {
    int_kw() + x + nl()
}

/// `%int[] X, N`: an array declaration.
pub open spec fn arr_line(x: Seq<u8>, n: Seq<u8>) -> Seq<u8> {
    arr_kw() + x + sep() + n + nl()
}

/// `%mov D, V`: a copy into a scalar.
pub open spec fn mov_line(d: Seq<u8>, v: Seq<u8>) -> Seq<u8> {
    mov_kw() + d + sep() + v + nl()
}

/// `%mov [X+I], V`: a store into an array element.
pub open spec fn store_line(x: Seq<u8>, i: Seq<u8>, v: Seq<u8>) -> Seq<u8> {
    mov_kw() + lbracket() + x + plus() + i + rbracket_sep() + v + nl()
}

/// `%mov T, [X+I]`: a load from an array element.
pub open spec fn load_line(t: Seq<u8>, x: Seq<u8>, i: Seq<u8>) -> Seq<u8> {
    mov_kw() + t + sep() + lbracket() + x + plus() + i + rbracket_nl()
}

/// `KW V` followed by a line break, for the one-operand directives.
pub open spec fn unary_line(kw: Seq<u8>, v: Seq<u8>) -> Seq<u8> {
    kw + v + nl()
}

/// `cond(V))`: the condition of a loop or branch.
pub open spec fn cond_line(v: Seq<u8>) -> Seq<u8> {
    cond_kw() + v + cond_end()
}

/// `%call T, F(`: the start of a call.
pub open spec fn call_open(t: Seq<u8>, f: Seq<u8>) -> Seq<u8> {
    call_kw() + t + sep() + f + lparen()
}

/// The arguments of a call, each followed by `, `.
pub open spec fn args_text(vals: Seq<Seq<u8>>) -> Seq<u8>
    decreases vals.len(),
{
    if vals.len() == 0 {
        Seq::empty()
    } else {
        args_text(vals.drop_last()) + vals.last() + sep()
    }
}

/// Appends `s` to `v`.
pub fn push_all(v: &mut Vec<u8>, s: &Vec<u8>)
    ensures
        final(v)@ == old(v)@ + s@,
{
    let ghost v0 = v@;
    let mut i: usize = 0;
    while i < s.len()
        invariant
            i <= s@.len(),
            v@ == v0 + s@.subrange(0, i as int),
        decreases s@.len() - i,
    {
        v.push(s[i]);
        i = i + 1;
        assert(v@ =~= v0 + s@.subrange(0, i as int));
    }
    assert(s@.subrange(0, s@.len() as int) =~= s@);
}

/// Appends the decimal digits of `n`.
pub fn push_decimal(v: &mut Vec<u8>, n: usize)
    ensures
        final(v)@ == old(v)@ + decimal(n as nat),
    decreases n,
{
    if n >= 10 {
        push_decimal(v, n / 10);
    }
    let d: u8 = (n % 10) as u8;
    v.push(48u8 + d);
    assert(v@ =~= old(v)@ + decimal(n as nat));
}

/// The name of the temporary numbered `t`.
pub fn temp_name_bytes(t: usize) -> (r: Vec<u8>)
    ensures
        r@ == temp_name(t as int),
{
    let mut r = temp_bytes();
    push_decimal(&mut r, t);
    r
}

pub fn bin_line_bytes(op: &Vec<u8>, d: &Vec<u8>, l: &Vec<u8>, r: &Vec<u8>) -> (v: Vec<u8>)
    ensures
        v@ == bin_line(op@, d@, l@, r@),
{
    let mut v = pct_bytes();
    push_all(&mut v, op);
    push_all(&mut v, &space_bytes());
    push_all(&mut v, d);
    push_all(&mut v, &sep_bytes());
    push_all(&mut v, l);
    push_all(&mut v, &sep_bytes());
    push_all(&mut v, r);
    push_all(&mut v, &nl_bytes());
    v
}

pub fn int_line_bytes(x: &Vec<u8>) -> (v: Vec<u8>)
    ensures
        v@ == int_line(x@),
{
    let mut v = int_kw_bytes();
    push_all(&mut v, x);
    push_all(&mut v, &nl_bytes());
    v
}

pub fn arr_line_bytes(x: &Vec<u8>, n: &Vec<u8>) -> (v: Vec<u8>)
    ensures
        v@ == arr_line(x@, n@),
{
    let mut v = arr_kw_bytes();
    push_all(&mut v, x);
    push_all(&mut v, &sep_bytes());
    push_all(&mut v, n);
    push_all(&mut v, &nl_bytes());
    v
}

pub fn mov_line_bytes(d: &Vec<u8>, s: &Vec<u8>) -> (v: Vec<u8>)
    ensures
        v@ == mov_line(d@, s@),
{
    let mut v = mov_kw_bytes();
    push_all(&mut v, d);
    push_all(&mut v, &sep_bytes());
    push_all(&mut v, s);
    push_all(&mut v, &nl_bytes());
    v
}

pub fn store_line_bytes(x: &Vec<u8>, i: &Vec<u8>, s: &Vec<u8>) -> (v: Vec<u8>)
    ensures
        v@ == store_line(x@, i@, s@),
{
    let mut v = mov_kw_bytes();
    push_all(&mut v, &lbracket_bytes());
    push_all(&mut v, x);
    push_all(&mut v, &plus_bytes());
    push_all(&mut v, i);
    push_all(&mut v, &rbracket_sep_bytes());
    push_all(&mut v, s);
    push_all(&mut v, &nl_bytes());
    v
}

pub fn load_line_bytes(t: &Vec<u8>, x: &Vec<u8>, i: &Vec<u8>) -> (v: Vec<u8>)
    ensures
        v@ == load_line(t@, x@, i@),
{
    let mut v = mov_kw_bytes();
    push_all(&mut v, t);
    push_all(&mut v, &sep_bytes());
    push_all(&mut v, &lbracket_bytes());
    push_all(&mut v, x);
    push_all(&mut v, &plus_bytes());
    push_all(&mut v, i);
    push_all(&mut v, &rbracket_nl_bytes());
    v
}

pub fn unary_line_bytes(kw: Vec<u8>, s: &Vec<u8>) -> (v: Vec<u8>)
    ensures
        v@ == unary_line(kw@, s@),
{
    let mut v = kw;
    push_all(&mut v, s);
    push_all(&mut v, &nl_bytes());
    v
}

pub fn cond_line_bytes(s: &Vec<u8>) -> (v: Vec<u8>)
    ensures
        v@ == cond_line(s@),
{
    let mut v = cond_kw_bytes();
    push_all(&mut v, s);
    push_all(&mut v, &cond_end_bytes());
    v
}

pub fn call_open_bytes(t: &Vec<u8>, f: &Vec<u8>) -> (v: Vec<u8>)
    ensures
        v@ == call_open(t@, f@),
{
    let mut v = call_kw_bytes();
    push_all(&mut v, t);
    push_all(&mut v, &sep_bytes());
    push_all(&mut v, f);
    push_all(&mut v, &lparen_bytes());
    v
}

pub fn args_text_bytes(vals: &Vec<Vec<u8>>) -> (v: Vec<u8>)
    ensures
        v@ == args_text(vals@.map_values(|a: Vec<u8>| a@)),
{
    let ghost vs = vals@.map_values(|a: Vec<u8>| a@);
    let mut v: Vec<u8> = Vec::new();
    let mut i: usize = 0;
    while i < vals.len()
        invariant
            i <= vals@.len(),
            vs == vals@.map_values(|a: Vec<u8>| a@),
            v@ == args_text(vs.subrange(0, i as int)),
        decreases vals@.len() - i,
    {
        push_all(&mut v, &vals[i]);
        push_all(&mut v, &sep_bytes());
        i = i + 1;
        assert(vs.subrange(0, i as int).drop_last() =~= vs.subrange(0, i as int - 1));
    }
    assert(vs.subrange(0, vals@.len() as int) =~= vs);
    v
}

pub proof fn lemma_decimal_len(n: nat)
    ensures
        decimal(n).len() >= 1,
        n >= 10 ==> decimal(n).len() >= 2,
    decreases n,
{
    if n >= 10 {
        lemma_decimal_len(n / 10);
    }
}

/// Distinct numbers have distinct decimal forms.
pub proof fn lemma_decimal_injective(a: nat, b: nat)
    requires
        decimal(a) == decimal(b),
    ensures
        a == b,
    decreases a,
{
    lemma_decimal_len(a);
    lemma_decimal_len(b);
    if a < 10 && b < 10 {
        assert(decimal(a)[0] == decimal(b)[0]);
        assert(decimal(a)[0] == (48 + a) as u8);
        assert(decimal(b)[0] == (48 + b) as u8);
    } else if a >= 10 && b >= 10 {
        let da = decimal(a);
        let db = decimal(b);
        assert(da.drop_last() =~= decimal(a / 10));
        assert(db.drop_last() =~= decimal(b / 10));
        assert(da.last() == db.last());
        assert(da.last() == (48 + a % 10) as u8);
        assert(db.last() == (48 + b % 10) as u8);
        assert(a % 10 == b % 10);
        lemma_decimal_injective(a / 10, b / 10);
        assert(a == 10 * (a / 10) + a % 10);
        assert(b == 10 * (b / 10) + b % 10);
    }
}

/// Temporaries with distinct numbers have distinct names.
pub proof fn lemma_temp_names_distinct(a: nat, b: nat)
    requires
        a != b,
    ensures
        temp_name(a as int) != temp_name(b as int),
{
    if temp_name(a as int) == temp_name(b as int) {
        assert(temp_name(a as int).skip(4) =~= decimal(a));
        assert(temp_name(b as int).skip(4) =~= decimal(b));
        lemma_decimal_injective(a, b);
    }
}

} // verus!
