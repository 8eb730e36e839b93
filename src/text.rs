use vstd::prelude::*;

verus! {

/// The bytes of `%`.
pub open spec fn pct() -> Seq<u8> {
    seq![37u8]
}

pub fn pct_bytes() -> (r: Vec<u8>)
    ensures
        r@ == pct(),
{
    let r: Vec<u8> = vec![37u8];
    assert(r@ =~= pct());
    r
}

/// The bytes of ` `.
pub open spec fn space() -> Seq<u8> {
    seq![32u8]
}

pub fn space_bytes() -> (r: Vec<u8>)
    ensures
        r@ == space(),
{
    let r: Vec<u8> = vec![32u8];
    assert(r@ =~= space());
    r
}

/// The bytes of `, `.
pub open spec fn sep() -> Seq<u8> {
    seq![44u8, 32u8]
}

pub fn sep_bytes() -> (r: Vec<u8>)
    ensures
        r@ == sep(),
{
    let r: Vec<u8> = vec![44u8, 32u8];
    assert(r@ =~= sep());
    r
}

/// The bytes of `\n`.
pub open spec fn nl() -> Seq<u8> {
    seq![10u8]
}

pub fn nl_bytes() -> (r: Vec<u8>)
    ensures
        r@ == nl(),
{
    let r: Vec<u8> = vec![10u8];
    assert(r@ =~= nl());
    r
}

/// The bytes of `%func `.
pub open spec fn func_kw() -> Seq<u8> {
    seq![37u8, 102u8, 117u8, 110u8, 99u8, 32u8]
}

pub fn func_kw_bytes() -> (r: Vec<u8>)
    ensures
        r@ == func_kw(),
{
    let r: Vec<u8> = vec![37u8, 102u8, 117u8, 110u8, 99u8, 32u8];
    assert(r@ =~= func_kw());
    r
}

/// The bytes of `%int `.
pub open spec fn int_kw() -> Seq<u8> {
    seq![37u8, 105u8, 110u8, 116u8, 32u8]
}

pub fn int_kw_bytes() -> (r: Vec<u8>)
    ensures
        r@ == int_kw(),
{
    let r: Vec<u8> = vec![37u8, 105u8, 110u8, 116u8, 32u8];
    assert(r@ =~= int_kw());
    r
}

/// The bytes of `(`.
pub open spec fn lparen() -> Seq<u8> {
    seq![40u8]
}

pub fn lparen_bytes() -> (r: Vec<u8>)
    ensures
        r@ == lparen(),
{
    let r: Vec<u8> = vec![40u8];
    assert(r@ =~= lparen());
    r
}

/// The bytes of `)\n`.
pub open spec fn rparen_nl() -> Seq<u8> {
    seq![41u8, 10u8]
}

pub fn rparen_nl_bytes() -> (r: Vec<u8>)
    ensures
        r@ == rparen_nl(),
{
    let r: Vec<u8> = vec![41u8, 10u8];
    assert(r@ =~= rparen_nl());
    r
}

/// The bytes of `%endfunc\n`.
pub open spec fn endfunc() -> Seq<u8> {
    seq![37u8, 101u8, 110u8, 100u8, 102u8, 117u8, 110u8, 99u8, 10u8]
}

pub fn endfunc_bytes() -> (r: Vec<u8>)
    ensures
        r@ == endfunc(),
{
    let r: Vec<u8> = vec![37u8, 101u8, 110u8, 100u8, 102u8, 117u8, 110u8, 99u8, 10u8];
    assert(r@ =~= endfunc());
    r
}

/// The bytes of `%int[] `.
pub open spec fn arr_kw() -> Seq<u8> {
    seq![37u8, 105u8, 110u8, 116u8, 91u8, 93u8, 32u8]
}

pub fn arr_kw_bytes() -> (r: Vec<u8>)
    ensures
        r@ == arr_kw(),
{
    let r: Vec<u8> = vec![37u8, 105u8, 110u8, 116u8, 91u8, 93u8, 32u8];
    assert(r@ =~= arr_kw());
    r
}

/// The bytes of `%mov `.
pub open spec fn mov_kw() -> Seq<u8> {
    seq![37u8, 109u8, 111u8, 118u8, 32u8]
}

pub fn mov_kw_bytes() -> (r: Vec<u8>)
    ensures
        r@ == mov_kw(),
{
    let r: Vec<u8> = vec![37u8, 109u8, 111u8, 118u8, 32u8];
    assert(r@ =~= mov_kw());
    r
}

/// The bytes of `[`.
pub open spec fn lbracket() -> Seq<u8> {
    seq![91u8]
}

pub fn lbracket_bytes() -> (r: Vec<u8>)
    ensures
        r@ == lbracket(),
{
    let r: Vec<u8> = vec![91u8];
    assert(r@ =~= lbracket());
    r
}

/// The bytes of `+`.
pub open spec fn plus() -> Seq<u8> {
    seq![43u8]
}

pub fn plus_bytes() -> (r: Vec<u8>)
    ensures
        r@ == plus(),
{
    let r: Vec<u8> = vec![43u8];
    assert(r@ =~= plus());
    r
}

/// The bytes of `]\n`.
pub open spec fn rbracket_nl() -> Seq<u8> {
    seq![93u8, 10u8]
}

pub fn rbracket_nl_bytes() -> (r: Vec<u8>)
    ensures
        r@ == rbracket_nl(),
{
    let r: Vec<u8> = vec![93u8, 10u8];
    assert(r@ =~= rbracket_nl());
    r
}

/// The bytes of `], `.
pub open spec fn rbracket_sep() -> Seq<u8> {
    seq![93u8, 44u8, 32u8]
}

pub fn rbracket_sep_bytes() -> (r: Vec<u8>)
    ensures
        r@ == rbracket_sep(),
{
    let r: Vec<u8> = vec![93u8, 44u8, 32u8];
    assert(r@ =~= rbracket_sep());
    r
}

/// The bytes of `while(`.
pub open spec fn while_kw() -> Seq<u8> {
    seq![119u8, 104u8, 105u8, 108u8, 101u8, 40u8]
}

pub fn while_kw_bytes() -> (r: Vec<u8>)
    ensures
        r@ == while_kw(),
{
    let r: Vec<u8> = vec![119u8, 104u8, 105u8, 108u8, 101u8, 40u8];
    assert(r@ =~= while_kw());
    r
}

/// The bytes of `if(`.
pub open spec fn if_kw() -> Seq<u8> {
    seq![105u8, 102u8, 40u8]
}

pub fn if_kw_bytes() -> (r: Vec<u8>)
    ensures
        r@ == if_kw(),
{
    let r: Vec<u8> = vec![105u8, 102u8, 40u8];
    assert(r@ =~= if_kw());
    r
}

/// The bytes of `cond(`.
pub open spec fn cond_kw() -> Seq<u8> {
    seq![99u8, 111u8, 110u8, 100u8, 40u8]
}

pub fn cond_kw_bytes() -> (r: Vec<u8>)
    ensures
        r@ == cond_kw(),
{
    let r: Vec<u8> = vec![99u8, 111u8, 110u8, 100u8, 40u8];
    assert(r@ =~= cond_kw());
    r
}

/// The bytes of `))\n`.
pub open spec fn cond_end() -> Seq<u8> {
    seq![41u8, 41u8, 10u8]
}

pub fn cond_end_bytes() -> (r: Vec<u8>)
    ensures
        r@ == cond_end(),
{
    let r: Vec<u8> = vec![41u8, 41u8, 10u8];
    assert(r@ =~= cond_end());
    r
}

/// The bytes of `else `.
pub open spec fn else_kw() -> Seq<u8> {
    seq![101u8, 108u8, 115u8, 101u8, 32u8]
}

pub fn else_kw_bytes() -> (r: Vec<u8>)
    ensures
        r@ == else_kw(),
{
    let r: Vec<u8> = vec![101u8, 108u8, 115u8, 101u8, 32u8];
    assert(r@ =~= else_kw());
    r
}

/// The bytes of `%out `.
pub open spec fn out_kw() -> Seq<u8> {
    seq![37u8, 111u8, 117u8, 116u8, 32u8]
}

pub fn out_kw_bytes() -> (r: Vec<u8>)
    ensures
        r@ == out_kw(),
{
    let r: Vec<u8> = vec![37u8, 111u8, 117u8, 116u8, 32u8];
    assert(r@ =~= out_kw());
    r
}

/// The bytes of `%input `.
pub open spec fn input_kw() -> Seq<u8> {
    seq![37u8, 105u8, 110u8, 112u8, 117u8, 116u8, 32u8]
}

pub fn input_kw_bytes() -> (r: Vec<u8>)
    ensures
        r@ == input_kw(),
{
    let r: Vec<u8> = vec![37u8, 105u8, 110u8, 112u8, 117u8, 116u8, 32u8];
    assert(r@ =~= input_kw());
    r
}

/// The bytes of `%ret `.
pub open spec fn ret_kw() -> Seq<u8> {
    seq![37u8, 114u8, 101u8, 116u8, 32u8]
}

pub fn ret_kw_bytes() -> (r: Vec<u8>)
    ensures
        r@ == ret_kw(),
{
    let r: Vec<u8> = vec![37u8, 114u8, 101u8, 116u8, 32u8];
    assert(r@ =~= ret_kw());
    r
}

/// The bytes of `break\n`.
pub open spec fn break_line() -> Seq<u8> {
    seq![98u8, 114u8, 101u8, 97u8, 107u8, 10u8]
}

pub fn break_line_bytes() -> (r: Vec<u8>)
    ensures
        r@ == break_line(),
{
    let r: Vec<u8> = vec![98u8, 114u8, 101u8, 97u8, 107u8, 10u8];
    assert(r@ =~= break_line());
    r
}

/// The bytes of `continue\n`.
pub open spec fn continue_line() -> Seq<u8> {
    seq![99u8, 111u8, 110u8, 116u8, 105u8, 110u8, 117u8, 101u8, 10u8]
}

pub fn continue_line_bytes() -> (r: Vec<u8>)
    ensures
        r@ == continue_line(),
{
    let r: Vec<u8> = vec![99u8, 111u8, 110u8, 116u8, 105u8, 110u8, 117u8, 101u8, 10u8];
    assert(r@ =~= continue_line());
    r
}

/// The bytes of `%call `.
pub open spec fn call_kw() -> Seq<u8> {
    seq![37u8, 99u8, 97u8, 108u8, 108u8, 32u8]
}

pub fn call_kw_bytes() -> (r: Vec<u8>)
    ensures
        r@ == call_kw(),
{
    let r: Vec<u8> = vec![37u8, 99u8, 97u8, 108u8, 108u8, 32u8];
    assert(r@ =~= call_kw());
    r
}

/// The bytes of `temp`.
pub open spec fn temp() -> Seq<u8> {
    seq![116u8, 101u8, 109u8, 112u8]
}

pub fn temp_bytes() -> (r: Vec<u8>)
    ensures
        r@ == temp(),
{
    let r: Vec<u8> = vec![116u8, 101u8, 109u8, 112u8];
    assert(r@ =~= temp());
    r
}

/// The bytes of `mult`.
pub open spec fn op_mult() -> Seq<u8> {
    seq![109u8, 117u8, 108u8, 116u8]
}

pub fn op_mult_bytes() -> (r: Vec<u8>)
    ensures
        r@ == op_mult(),
{
    let r: Vec<u8> = vec![109u8, 117u8, 108u8, 116u8];
    assert(r@ =~= op_mult());
    r
}

/// The bytes of `div`.
pub open spec fn op_div() -> Seq<u8> {
    seq![100u8, 105u8, 118u8]
}

pub fn op_div_bytes() -> (r: Vec<u8>)
    ensures
        r@ == op_div(),
{
    let r: Vec<u8> = vec![100u8, 105u8, 118u8];
    assert(r@ =~= op_div());
    r
}

/// The bytes of `mod`.
pub open spec fn op_mod() -> Seq<u8> {
    seq![109u8, 111u8, 100u8]
}

pub fn op_mod_bytes() -> (r: Vec<u8>)
    ensures
        r@ == op_mod(),
{
    let r: Vec<u8> = vec![109u8, 111u8, 100u8];
    assert(r@ =~= op_mod());
    r
}

/// The bytes of `add`.
pub open spec fn op_add() -> Seq<u8> {
    seq![97u8, 100u8, 100u8]
}

pub fn op_add_bytes() -> (r: Vec<u8>)
    ensures
        r@ == op_add(),
{
    let r: Vec<u8> = vec![97u8, 100u8, 100u8];
    assert(r@ =~= op_add());
    r
}

/// The bytes of `sub`.
pub open spec fn op_sub() -> Seq<u8> {
    seq![115u8, 117u8, 98u8]
}

pub fn op_sub_bytes() -> (r: Vec<u8>)
    ensures
        r@ == op_sub(),
{
    let r: Vec<u8> = vec![115u8, 117u8, 98u8];
    assert(r@ =~= op_sub());
    r
}

/// The bytes of `lt`.
pub open spec fn op_lt() -> Seq<u8> {
    seq![108u8, 116u8]
}

pub fn op_lt_bytes() -> (r: Vec<u8>)
    ensures
        r@ == op_lt(),
{
    let r: Vec<u8> = vec![108u8, 116u8];
    assert(r@ =~= op_lt());
    r
}

/// The bytes of `gt`.
pub open spec fn op_gt() -> Seq<u8> {
    seq![103u8, 116u8]
}

pub fn op_gt_bytes() -> (r: Vec<u8>)
    ensures
        r@ == op_gt(),
{
    let r: Vec<u8> = vec![103u8, 116u8];
    assert(r@ =~= op_gt());
    r
}

/// The bytes of `ge`.
pub open spec fn op_ge() -> Seq<u8> {
    seq![103u8, 101u8]
}

pub fn op_ge_bytes() -> (r: Vec<u8>)
    ensures
        r@ == op_ge(),
{
    let r: Vec<u8> = vec![103u8, 101u8];
    assert(r@ =~= op_ge());
    r
}

/// The bytes of `le`.
pub open spec fn op_le() -> Seq<u8> {
    seq![108u8, 101u8]
}

pub fn op_le_bytes() -> (r: Vec<u8>)
    ensures
        r@ == op_le(),
{
    let r: Vec<u8> = vec![108u8, 101u8];
    assert(r@ =~= op_le());
    r
}

/// The bytes of `eq`.
pub open spec fn op_eq() -> Seq<u8> {
    seq![101u8, 113u8]
}

pub fn op_eq_bytes() -> (r: Vec<u8>)
    ensures
        r@ == op_eq(),
{
    let r: Vec<u8> = vec![101u8, 113u8];
    assert(r@ =~= op_eq());
    r
}

/// The bytes of `neq`.
pub open spec fn op_neq() -> Seq<u8> {
    seq![110u8, 101u8, 113u8]
}

pub fn op_neq_bytes() -> (r: Vec<u8>)
    ensures
        r@ == op_neq(),
{
    let r: Vec<u8> = vec![110u8, 101u8, 113u8];
    assert(r@ =~= op_neq());
    r
}

} // verus!
