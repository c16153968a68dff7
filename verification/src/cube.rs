//! The exclusive-or cube over a sequence of sledge numbers.

use crate::error::Error;
use crate::text::{
    chars_of, decimal, decimal_string, parse_u32_chars, parsed_u32, split_chars, split_on, texts,
};
use vstd::prelude::*;

verus! {

/// The largest number of sledges that one request may name.
pub const MAX_SLEDGES: usize = 20;

/// All numbers of `v` combined by bitwise exclusive or, from left to right;
/// zero for the empty sequence.
pub open spec fn xor_fold(v: Seq<u32>) -> u32
    decreases v.len(),
{
    if v.len() == 0 {
        0
    } else {
        xor_fold(v.drop_last()) ^ v.last()
    }
}

/// The third power of `x`.
pub open spec fn cube(x: nat) -> nat {
    x * x * x
}

/// Every segment writes a non-negative integer of at most 32 bits.
pub open spec fn all_numeric(segments: Seq<Seq<char>>) -> bool {
    forall|i: int| 0 <= i < segments.len() ==> parsed_u32(#[trigger] segments[i]) is Some
}

/// The numbers that the segments write, in order.
pub open spec fn sledges_of(segments: Seq<Seq<char>>) -> Seq<u32> {
    Seq::new(segments.len(), |i: int| parsed_u32(segments[i]).unwrap())
}

/// The texts of a sequence of strings.
pub open spec fn string_texts(segments: Seq<String>) -> Seq<Seq<char>> {
    segments.map_values(|s: String| s@)
}

/// What is owed for a sequence of sledge numbers: a failure for more than
/// twenty or for none, else the cube of their exclusive or.
pub open spec fn cube_of_sledges(sledges: Seq<u32>) -> Result<nat, Error> {
    if sledges.len() > MAX_SLEDGES {
        Err(Error::TooManyError)
    } else if sledges.len() == 0 {
        Err(Error::EmptyInputError)
    } else {
        Ok(cube(xor_fold(sledges) as nat))
    }
}

/// What is owed for a sequence of path segments: a parse failure if any
/// segment is no number, whatever their count; else what is owed for the
/// numbers.
pub open spec fn cube_of_segments(segments: Seq<Seq<char>>) -> Result<nat, Error> {
    if !all_numeric(segments) {
        Err(Error::ParseError)
    } else {
        cube_of_sledges(sledges_of(segments))
    }
}

/// Exclusive or is associative, so the fold of a concatenation is the
/// exclusive or of the folds of its parts.
pub proof fn lemma_xor_fold_concat(a: Seq<u32>, b: Seq<u32>)
    ensures
        xor_fold(a + b) == xor_fold(a) ^ xor_fold(b),
    decreases b.len(),
{
    let x = xor_fold(a);
    if b.len() == 0 {
        assert(a + b =~= a);
        assert(x ^ 0u32 == x) by (bit_vector);
    } else {
        assert((a + b).drop_last() =~= a + b.drop_last());
        assert((a + b).last() == b.last());
        lemma_xor_fold_concat(a, b.drop_last());
        let y = xor_fold(b.drop_last());
        let z = b.last();
        assert((x ^ y) ^ z == x ^ (y ^ z)) by (bit_vector);
    }
}

/// Exclusive or is commutative, so the fold does not change when two parts
/// of the sequence change places.
pub proof fn lemma_xor_fold_swap(a: Seq<u32>, b: Seq<u32>)
    ensures
        xor_fold(a + b) == xor_fold(b + a),
{
    lemma_xor_fold_concat(a, b);
    lemma_xor_fold_concat(b, a);
    let x = xor_fold(a);
    let y = xor_fold(b);
    assert(x ^ y == y ^ x) by (bit_vector);
}

/// The fold of a single number is that number.
pub proof fn lemma_xor_fold_one(a: u32)
    ensures
        xor_fold(seq![a]) == a,
{
    assert(seq![a].drop_last() =~= Seq::<u32>::empty());
    assert(xor_fold(Seq::<u32>::empty()) == 0);
    assert(0u32 ^ a == a) by (bit_vector);
}

/// Folding three numbers and cubing gives the cube of their exclusive or,
/// taken from left to right.
pub proof fn lemma_xor_fold_three(a: u32, b: u32, c: u32)
    ensures
        xor_fold(seq![a, b, c]) == a ^ b ^ c,
        cube(xor_fold(seq![a, b, c]) as nat) == cube((a ^ b ^ c) as nat),
{
    lemma_xor_fold_one(a);
    assert(seq![a, b].drop_last() =~= seq![a]);
    assert(seq![a, b].last() == b);
    assert(xor_fold(seq![a, b]) == a ^ b);
    assert(seq![a, b, c].drop_last() =~= seq![a, b]);
    assert(seq![a, b, c].last() == c);
}

/// Reads every segment as a sledge number. Fails with `ParseError` exactly
/// when some segment is not a non-negative integer of at most 32 bits.
pub fn parse_sledges(segments: &Vec<Vec<char>>) -> (r: Result<Vec<u32>, Error>)
    ensures
        all_numeric(texts(segments@)) <==> r is Ok,
        r matches Ok(v) ==> v@ == sledges_of(texts(segments@)),
        r matches Err(e) ==> e == Error::ParseError,
{
    let ghost all = texts(segments@);
    let mut sledges: Vec<u32> = Vec::new();
    let mut i: usize = 0;
    while i < segments.len()
        invariant
            i <= segments.len(),
            sledges.len() == i,
            all == texts(segments@),
            forall|j: int| 0 <= j < i ==> parsed_u32(#[trigger] all[j]) == Some(sledges@[j]),
        decreases segments.len() - i,
    {
        assert(all[i as int] == segments@[i as int]@);
        match parse_u32_chars(&segments[i]) {
            Some(n) => {
                sledges.push(n);
            },
            None => {
                assert(parsed_u32(all[i as int]) is None);
                return Err(Error::ParseError);
            },
        }
        i += 1;
    }
    assert(sledges@ =~= sledges_of(all));
    Ok(sledges)
}

/// Combines the sledge numbers by exclusive or and raises the result to the
/// third power, in a width that holds the cube of any 32-bit number.
pub fn exclusive_cube_of(sledges: &Vec<u32>) -> (r: Result<u128, Error>)
    ensures
        match cube_of_sledges(sledges@) {
            Ok(n) => r matches Ok(m) && m == n,
            Err(e) => r matches Err(f) && f == e,
        },
{
    if sledges.len() > MAX_SLEDGES {
        return Err(Error::TooManyError);
    }
    if sledges.len() == 0 {
        return Err(Error::EmptyInputError);
    }
    let mut acc: u32 = 0;
    let mut i: usize = 0;
    while i < sledges.len()
        invariant
            i <= sledges.len(),
            acc == xor_fold(sledges@.take(i as int)),
        decreases sledges.len() - i,
    {
        assert(sledges@.take(i + 1).drop_last() =~= sledges@.take(i as int));
        acc = acc ^ sledges[i];
        i += 1;
    }
    assert(sledges@.take(i as int) =~= sledges@);
    let x: u128 = acc as u128;
    assert(x * x <= 0xffff_ffff * 0xffff_ffff) by (nonlinear_arith)
        requires
            x <= 0xffff_ffff,
    ;
    let square: u128 = x * x;
    assert(square * x <= 0xffff_ffff * 0xffff_ffff * 0xffff_ffff) by (nonlinear_arith)
        requires
            square <= 0xffff_ffff * 0xffff_ffff,
            x <= 0xffff_ffff,
    ;
    Ok(square * x)
}

/// Reads the segments as sledge numbers and renders the cube of their
/// exclusive or as a decimal numeral.
fn cube_of_pieces(segments: &Vec<Vec<char>>) -> (r: Result<String, Error>)
    ensures
        match cube_of_segments(texts(segments@)) {
            Ok(n) => r matches Ok(s) && s@ == decimal(n),
            Err(e) => r matches Err(f) && f == e,
        },
{
    let sledges = match parse_sledges(segments) {
        Ok(v) => v,
        Err(e) => { return Err(e); },
    };
    match exclusive_cube_of(&sledges) {
        Ok(n) => Ok(decimal_string(n)),
        Err(e) => Err(e),
    }
}

/// The exclusive-or cube of the sledge numbers that the given path segments
/// write, as a decimal numeral.
pub fn exclusive_cube_segments(segments: &Vec<String>) -> (r: Result<String, Error>)
    ensures
        match cube_of_segments(string_texts(segments@)) {
            Ok(n) => r matches Ok(s) && s@ == decimal(n),
            Err(e) => r matches Err(f) && f == e,
        },
{
    let mut pieces: Vec<Vec<char>> = Vec::new();
    let mut i: usize = 0;
    while i < segments.len()
        invariant
            i <= segments.len(),
            texts(pieces@) == string_texts(segments@.take(i as int)),
        decreases segments.len() - i,
    {
        let ghost before = texts(pieces@);
        pieces.push(chars_of(segments[i].as_str()));
        assert(texts(pieces@) =~= before.push(segments@[i as int]@));
        assert(string_texts(segments@.take(i + 1)) =~= before.push(segments@[i as int]@));
        i += 1;
    }
    assert(segments@.take(i as int) =~= segments@);
    cube_of_pieces(&pieces)
}

/// The exclusive-or cube of the sledge numbers in a path whose segments are
/// separated by `/`, as a decimal numeral.
pub fn exclusive_cube(path: &str) -> (r: Result<String, Error>)
    ensures
        match cube_of_segments(split_on(path@, '/')) {
            Ok(n) => r matches Ok(s) && s@ == decimal(n),
            Err(e) => r matches Err(f) && f == e,
        },
{
    let text = chars_of(path);
    let pieces = split_chars(&text, '/');
    cube_of_pieces(&pieces)
}

} // verus!
