//! The keyword table: recognizing which identifier runs are keywords.

use vstd::prelude::*;

use crate::model::keyword_kind;
use crate::token::TokenKind;

verus! {

/// Compares two byte strings for equality.
fn bytes_eq(a: &Vec<u8>, b: &Vec<u8>) -> (r: bool)
    ensures
        r == (a@ == b@),
{
    if a.len() != b.len() {
        return false;
    }
    let mut i: usize = 0;
    while i < a.len()
        invariant
            i <= a@.len(),
            a@.len() == b@.len(),
            forall|j: int| 0 <= j < i ==> a@[j] == b@[j],
        decreases a@.len() - i,
    {
        if a[i] != b[i] {
            return false;
        }
        i = i + 1;
    }
    proof {
        assert(a@ =~= b@);
    }
    true
}

fn kw_true_vec() -> (r: Vec<u8>)
    ensures
        r@ == crate::model::kw_true(),
{
    let mut r: Vec<u8> = Vec::new();
    r.push('t' as u8);
    r.push('r' as u8);
    r.push('u' as u8);
    r.push('e' as u8);
    proof {
        assert(r@ =~= crate::model::kw_true());
    }
    r
}

fn kw_false_vec() -> (r: Vec<u8>)
    ensures
        r@ == crate::model::kw_false(),
{
    let mut r: Vec<u8> = Vec::new();
    r.push('f' as u8);
    r.push('a' as u8);
    r.push('l' as u8);
    r.push('s' as u8);
    r.push('e' as u8);
    proof {
        assert(r@ =~= crate::model::kw_false());
    }
    r
}

fn kw_nil_vec() -> (r: Vec<u8>)
    ensures
        r@ == crate::model::kw_nil(),
{
    let mut r: Vec<u8> = Vec::new();
    r.push('n' as u8);
    r.push('i' as u8);
    r.push('l' as u8);
    proof {
        assert(r@ =~= crate::model::kw_nil());
    }
    r
}

fn kw_let_vec() -> (r: Vec<u8>)
    ensures
        r@ == crate::model::kw_let(),
{
    let mut r: Vec<u8> = Vec::new();
    r.push('l' as u8);
    r.push('e' as u8);
    r.push('t' as u8);
    proof {
        assert(r@ =~= crate::model::kw_let());
    }
    r
}

fn kw_import_vec() -> (r: Vec<u8>)
    ensures
        r@ == crate::model::kw_import(),
{
    let mut r: Vec<u8> = Vec::new();
    r.push('i' as u8);
    r.push('m' as u8);
    r.push('p' as u8);
    r.push('o' as u8);
    r.push('r' as u8);
    r.push('t' as u8);
    proof {
        assert(r@ =~= crate::model::kw_import());
    }
    r
}

fn kw_json_vec() -> (r: Vec<u8>)
    ensures
        r@ == crate::model::kw_json(),
{
    let mut r: Vec<u8> = Vec::new();
    r.push('j' as u8);
    r.push('s' as u8);
    r.push('o' as u8);
    r.push('n' as u8);
    proof {
        assert(r@ =~= crate::model::kw_json());
    }
    r
}

fn kw_multipart_vec() -> (r: Vec<u8>)
    ensures
        r@ == crate::model::kw_multipart(),
{
    let mut r: Vec<u8> = Vec::new();
    r.push('m' as u8);
    r.push('u' as u8);
    r.push('l' as u8);
    r.push('t' as u8);
    r.push('i' as u8);
    r.push('p' as u8);
    r.push('a' as u8);
    r.push('r' as u8);
    r.push('t' as u8);
    proof {
        assert(r@ =~= crate::model::kw_multipart());
    }
    r
}

fn kw_raw_vec() -> (r: Vec<u8>)
    ensures
        r@ == crate::model::kw_raw(),
{
    let mut r: Vec<u8> = Vec::new();
    r.push('r' as u8);
    r.push('a' as u8);
    r.push('w' as u8);
    proof {
        assert(r@ =~= crate::model::kw_raw());
    }
    r
}

fn kw_form_vec() -> (r: Vec<u8>)
    ensures
        r@ == crate::model::kw_form(),
{
    let mut r: Vec<u8> = Vec::new();
    r.push('f' as u8);
    r.push('o' as u8);
    r.push('r' as u8);
    r.push('m' as u8);
    proof {
        assert(r@ =~= crate::model::kw_form());
    }
    r
}

fn kw_save_vec() -> (r: Vec<u8>)
    ensures
        r@ == crate::model::kw_save(),
{
    let mut r: Vec<u8> = Vec::new();
    r.push('s' as u8);
    r.push('a' as u8);
    r.push('v' as u8);
    r.push('e' as u8);
    proof {
        assert(r@ =~= crate::model::kw_save());
    }
    r
}

fn kw_assert_vec() -> (r: Vec<u8>)
    ensures
        r@ == crate::model::kw_assert(),
{
    let mut r: Vec<u8> = Vec::new();
    r.push('a' as u8);
    r.push('s' as u8);
    r.push('s' as u8);
    r.push('e' as u8);
    r.push('r' as u8);
    r.push('t' as u8);
    proof {
        assert(r@ =~= crate::model::kw_assert());
    }
    r
}

fn kw_matches_vec() -> (r: Vec<u8>)
    ensures
        r@ == crate::model::kw_matches(),
{
    let mut r: Vec<u8> = Vec::new();
    r.push('m' as u8);
    r.push('a' as u8);
    r.push('t' as u8);
    r.push('c' as u8);
    r.push('h' as u8);
    r.push('e' as u8);
    r.push('s' as u8);
    proof {
        assert(r@ =~= crate::model::kw_matches());
    }
    r
}

fn kw_in_vec() -> (r: Vec<u8>)
    ensures
        r@ == crate::model::kw_in(),
{
    let mut r: Vec<u8> = Vec::new();
    r.push('i' as u8);
    r.push('n' as u8);
    proof {
        assert(r@ =~= crate::model::kw_in());
    }
    r
}

fn kw_contains_vec() -> (r: Vec<u8>)
    ensures
        r@ == crate::model::kw_contains(),
{
    let mut r: Vec<u8> = Vec::new();
    r.push('c' as u8);
    r.push('o' as u8);
    r.push('n' as u8);
    r.push('t' as u8);
    r.push('a' as u8);
    r.push('i' as u8);
    r.push('n' as u8);
    r.push('s' as u8);
    proof {
        assert(r@ =~= crate::model::kw_contains());
    }
    r
}

fn kw_test_vec() -> (r: Vec<u8>)
    ensures
        r@ == crate::model::kw_test(),
{
    let mut r: Vec<u8> = Vec::new();
    r.push('t' as u8);
    r.push('e' as u8);
    r.push('s' as u8);
    r.push('t' as u8);
    proof {
        assert(r@ =~= crate::model::kw_test());
    }
    r
}

fn kw_get_vec() -> (r: Vec<u8>)
    ensures
        r@ == crate::model::kw_get(),
{
    let mut r: Vec<u8> = Vec::new();
    r.push('g' as u8);
    r.push('e' as u8);
    r.push('t' as u8);
    proof {
        assert(r@ =~= crate::model::kw_get());
    }
    r
}

fn kw_post_vec() -> (r: Vec<u8>)
    ensures
        r@ == crate::model::kw_post(),
{
    let mut r: Vec<u8> = Vec::new();
    r.push('p' as u8);
    r.push('o' as u8);
    r.push('s' as u8);
    r.push('t' as u8);
    proof {
        assert(r@ =~= crate::model::kw_post());
    }
    r
}

fn kw_put_vec() -> (r: Vec<u8>)
    ensures
        r@ == crate::model::kw_put(),
{
    let mut r: Vec<u8> = Vec::new();
    r.push('p' as u8);
    r.push('u' as u8);
    r.push('t' as u8);
    proof {
        assert(r@ =~= crate::model::kw_put());
    }
    r
}

fn kw_delete_vec() -> (r: Vec<u8>)
    ensures
        r@ == crate::model::kw_delete(),
{
    let mut r: Vec<u8> = Vec::new();
    r.push('d' as u8);
    r.push('e' as u8);
    r.push('l' as u8);
    r.push('e' as u8);
    r.push('t' as u8);
    r.push('e' as u8);
    proof {
        assert(r@ =~= crate::model::kw_delete());
    }
    r
}

fn kw_name_vec() -> (r: Vec<u8>)
    ensures
        r@ == crate::model::kw_name(),
{
    let mut r: Vec<u8> = Vec::new();
    r.push('n' as u8);
    r.push('a' as u8);
    r.push('m' as u8);
    r.push('e' as u8);
    proof {
        assert(r@ =~= crate::model::kw_name());
    }
    r
}

fn kw_graphql_vec() -> (r: Vec<u8>)
    ensures
        r@ == crate::model::kw_graphql(),
{
    let mut r: Vec<u8> = Vec::new();
    r.push('g' as u8);
    r.push('r' as u8);
    r.push('a' as u8);
    r.push('p' as u8);
    r.push('h' as u8);
    r.push('q' as u8);
    r.push('l' as u8);
    proof {
        assert(r@ =~= crate::model::kw_graphql());
    }
    r
}

fn kw_ws_vec() -> (r: Vec<u8>)
    ensures
        r@ == crate::model::kw_ws(),
{
    let mut r: Vec<u8> = Vec::new();
    r.push('w' as u8);
    r.push('s' as u8);
    proof {
        assert(r@ =~= crate::model::kw_ws());
    }
    r
}

/// The token kind of an identifier run: the matching keyword's kind, or
/// `Ident` when the run matches no keyword.
pub fn classify_ident(lit: &Vec<u8>) -> (kind: TokenKind)
    ensures
        kind@ == keyword_kind(lit@),
{
    if bytes_eq(lit, &kw_true_vec()) {
        TokenKind::True
    } else if bytes_eq(lit, &kw_false_vec()) {
        TokenKind::False
    } else if bytes_eq(lit, &kw_nil_vec()) {
        TokenKind::Nil
    } else if bytes_eq(lit, &kw_let_vec()) {
        TokenKind::Let
    } else if bytes_eq(lit, &kw_import_vec()) {
        TokenKind::Import
    } else if bytes_eq(lit, &kw_json_vec()) {
        TokenKind::Json
    } else if bytes_eq(lit, &kw_multipart_vec()) {
        TokenKind::Multipart
    } else if bytes_eq(lit, &kw_raw_vec()) {
        TokenKind::Raw
    } else if bytes_eq(lit, &kw_form_vec()) {
        TokenKind::Form
    } else if bytes_eq(lit, &kw_save_vec()) {
        TokenKind::Save
    } else if bytes_eq(lit, &kw_assert_vec()) {
        TokenKind::Assert
    } else if bytes_eq(lit, &kw_matches_vec()) {
        TokenKind::Matches
    } else if bytes_eq(lit, &kw_in_vec()) {
        TokenKind::In
    } else if bytes_eq(lit, &kw_contains_vec()) {
        TokenKind::Contains
    } else if bytes_eq(lit, &kw_test_vec()) {
        TokenKind::Test
    } else if bytes_eq(lit, &kw_get_vec()) {
        TokenKind::Get
    } else if bytes_eq(lit, &kw_post_vec()) {
        TokenKind::Post
    } else if bytes_eq(lit, &kw_put_vec()) {
        TokenKind::Put
    } else if bytes_eq(lit, &kw_delete_vec()) {
        TokenKind::Delete
    } else if bytes_eq(lit, &kw_name_vec()) {
        TokenKind::Name
    } else if bytes_eq(lit, &kw_graphql_vec()) {
        TokenKind::Graphql
    } else if bytes_eq(lit, &kw_ws_vec()) {
        TokenKind::Ws
    } else {
        TokenKind::Ident
    }
}

} // verus!
