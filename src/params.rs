//! The live parameter list and the byte layout it is handed to the GPU in.
use vstd::prelude::*;
use crate::decimal::Decimal;
use crate::extractor::{ParamDecl, ParamDeclView, views};

verus! {

/// A live, tunable parameter. `value` holds the bit pattern of the `f32`
/// the shader reads; its bounds are the declared ones.
#[derive(Clone, Debug)]
pub struct Param {
    pub name: Vec<u8>,
    pub min: Decimal,
    pub max: Decimal,
    pub value: u32,
}

pub struct ParamView {
    pub name: Seq<u8>,
    pub min: Decimal,
    pub max: Decimal,
    pub value: u32,
}

impl View for Param {
    type V = ParamView;

    open spec fn view(&self) -> ParamView {
        ParamView { name: self.name@, min: self.min, max: self.max, value: self.value }
    }
}

pub open spec fn param_views(v: Seq<Param>) -> Seq<ParamView> {
    v.map_values(|p: Param| p@)
}

/// The value that the first parameter named `name` at or after index `k` holds.
pub open spec fn value_from(params: Seq<ParamView>, name: Seq<u8>, k: int) -> Option<u32>
    decreases params.len() - k,
{
    if k < 0 || k >= params.len() {
        None
    } else if params[k].name == name {
        Some(params[k].value)
    } else {
        value_from(params, name, k + 1)
    }
}

/// The value that the first parameter named `name` holds, if any does.
pub open spec fn value_of(params: Seq<ParamView>, name: Seq<u8>) -> Option<u32> {
    value_from(params, name, 0)
}

/// The parameter list that a set of declarations gives. A parameter whose
/// name `kept` already holds keeps that value when `carry` is set; any other
/// starts from its default.
pub open spec fn merged(
    kept: Seq<ParamView>,
    decls: Seq<ParamDeclView>,
    defaults: Seq<u32>,
    carry: bool,
) -> Seq<ParamView> {
    Seq::new(
        decls.len(),
        |i: int|
            ParamView {
                name: decls[i].name,
                min: decls[i].min,
                max: decls[i].max,
                value: if carry && value_of(kept, decls[i].name) is Some {
                    value_of(kept, decls[i].name)->Some_0
                } else {
                    defaults[i]
                },
            },
    )
}

/// Four bytes of `v`, least significant first.
pub open spec fn le_bytes(v: u32) -> Seq<u8> {
    seq![
        (v % 256) as u8,
        (v / 256 % 256) as u8,
        (v / 65536 % 256) as u8,
        (v / 16777216) as u8,
    ]
}

/// The parameter buffer: each value's four bytes, in list order.
pub open spec fn param_buffer(params: Seq<ParamView>) -> Seq<u8>
    decreases params.len(),
{
    if params.len() == 0 {
        seq![]
    } else {
        param_buffer(params.drop_last()) + le_bytes(params.last().value)
    }
}

/// The buffer holds four bytes per parameter.
pub proof fn lemma_param_buffer_len(params: Seq<ParamView>)
    ensures
        param_buffer(params).len() == 4 * params.len(),
    decreases params.len(),
{
    if params.len() > 0 {
        lemma_param_buffer_len(params.drop_last());
    }
}

/// Appends the four bytes of `v`, least significant first.
pub fn push_le_bytes(out: &mut Vec<u8>, v: u32)
    ensures
        final(out)@ == old(out)@ + le_bytes(v),
{
    out.push((v % 256) as u8);
    out.push((v / 256 % 256) as u8);
    out.push((v / 65536 % 256) as u8);
    out.push((v / 16777216) as u8);
    assert(out@ =~= old(out)@ + le_bytes(v));
}

/// The bytes of the parameter buffer: every value as a little-endian `f32`,
/// in list order, four bytes each.
pub fn param_bytes(params: &Vec<Param>) -> (r: Vec<u8>)
    ensures
        r@ == param_buffer(param_views(params@)),
        r@.len() == 4 * params@.len(),
{
    let mut out: Vec<u8> = Vec::new();
    let mut k: usize = 0;
    while k < params.len()
        invariant
            k <= params@.len(),
            out@ == param_buffer(param_views(params@).subrange(0, k as int)),
        decreases params@.len() - k,
    {
        proof {
            let s = param_views(params@).subrange(0, k + 1);
            assert(s.drop_last() =~= param_views(params@).subrange(0, k as int));
        }
        push_le_bytes(&mut out, params[k].value);
        k = k + 1;
    }
    proof {
        assert(param_views(params@).subrange(0, k as int) =~= param_views(params@));
        lemma_param_buffer_len(param_views(params@));
    }
    out
}

fn names_equal(a: &Vec<u8>, b: &Vec<u8>) -> (r: bool)
    ensures
        r == (a@ == b@),
{
    if a.len() != b.len() {
        return false;
    }
    let mut k: usize = 0;
    while k < a.len()
        invariant
            k <= a@.len() == b@.len(),
            a@.subrange(0, k as int) == b@.subrange(0, k as int),
        decreases a@.len() - k,
    {
        if a[k] != b[k] {
            return false;
        }
        assert(a@.subrange(0, k + 1) =~= a@.subrange(0, k as int).push(a@[k as int]));
        assert(b@.subrange(0, k + 1) =~= b@.subrange(0, k as int).push(b@[k as int]));
        k = k + 1;
    }
    assert(a@ =~= a@.subrange(0, k as int));
    assert(b@ =~= b@.subrange(0, k as int));
    true
}

/// The value that the first parameter named `name` holds, if any does.
pub fn find_value(params: &Vec<Param>, name: &Vec<u8>) -> (r: Option<u32>)
    ensures
        r == value_of(param_views(params@), name@),
{
    let mut k: usize = 0;
    while k < params.len()
        invariant
            k <= params@.len(),
            value_of(param_views(params@), name@) == value_from(
                param_views(params@),
                name@,
                k as int,
            ),
        decreases params@.len() - k,
    {
        assert(param_views(params@)[k as int] == params@[k as int]@);
        if names_equal(&params[k].name, name) {
            return Some(params[k].value);
        }
        k = k + 1;
    }
    None
}

/// Builds the live list from declarations: names and bounds as declared; the
/// value is the one `kept` holds under the same name when `carry` is set and
/// it has one, else the declaration's default (`defaults[i]` is the `f32`
/// bit pattern of `decls[i].default`).
pub fn merge_params(kept: &Vec<Param>, decls: &Vec<ParamDecl>, defaults: &Vec<u32>, carry: bool) -> (r:
    Vec<Param>)
    requires
        defaults@.len() == decls@.len(),
    ensures
        param_views(r@) == merged(param_views(kept@), views(decls@), defaults@, carry),
{
    let mut out: Vec<Param> = Vec::new();
    let mut i: usize = 0;
    let ghost target = merged(param_views(kept@), views(decls@), defaults@, carry);
    while i < decls.len()
        invariant
            i <= decls@.len() == defaults@.len(),
            target == merged(param_views(kept@), views(decls@), defaults@, carry),
            param_views(out@) == target.subrange(0, i as int),
        decreases decls@.len() - i,
    {
        let d = &decls[i];
        let found = if carry { find_value(kept, &d.name) } else { None };
        let value = match found {
            Some(v) => v,
            None => defaults[i],
        };
        let ghost before = out@;
        out.push(Param { name: d.name.clone(), min: d.min, max: d.max, value });
        proof {
            assert(views(decls@)[i as int] == decls@[i as int]@);
            assert(param_views(out@) =~= param_views(before).push(out@[i as int]@));
            assert(target.subrange(0, i + 1) =~= target.subrange(0, i as int).push(target[i as int]));
        }
        i = i + 1;
    }
    assert(target.subrange(0, i as int) =~= target);
    out
}

} // verus!
