//! Document identifiers, document URLs, and change-hash strings.
//!
//! A document id travels through this library as its URL-safe string form;
//! only the repository can mint one.  Whether a string is a well-formed id
//! (or change hash) is decided by the repository crate, so that judgement is
//! named and trusted, while everything around it — the `automerge:<id>` URL
//! shape, comma-joined head lists — is parsed by verified code.

use std::str::FromStr;
use vstd::prelude::*;

verus! {

/// Whether `automerge_repo::DocumentId::from_str` accepts the string.
pub uninterp spec fn valid_doc_id(s: Seq<char>) -> bool;

/// Whether `automerge::ChangeHash::from_str` accepts the string.
pub uninterp spec fn valid_change_hash(s: Seq<char>) -> bool;

/// Relies on `automerge_repo::DocumentId::from_str`: acceptance depends on
/// the characters alone (bs58-with-checksum, or a legacy UUID).
#[verifier::external_body]
pub fn is_valid_doc_id(s: &str) -> (r: bool)
    ensures
        r == valid_doc_id(s@),
{
    automerge_repo::DocumentId::from_str(s).is_ok()
}

/// Relies on `automerge::ChangeHash::from_str`: acceptance depends on the
/// characters alone (64 hex digits).
#[verifier::external_body]
pub fn is_valid_change_hash(s: &str) -> (r: bool)
    ensures
        r == valid_change_hash(s@),
{
    automerge::ChangeHash::from_str(s).is_ok()
}

/// The id named by a document URL: the text after `automerge:`, provided the
/// prefix is present and the remainder is a well-formed document id.
pub open spec fn parse_url_spec(url: Seq<char>) -> Option<Seq<char>> {
    if url.len() >= 10 && url.subrange(0, 10) == "automerge:"@ && valid_doc_id(url.skip(10)) {
        Some(url.skip(10))
    } else {
        None
    }
}

/// Extract the document id from an `automerge:<id>` URL.
pub fn parse_automerge_url(url: &str) -> (r: Option<String>)
    ensures
        r is Some <==> parse_url_spec(url@) is Some,
        r matches Some(id) ==> parse_url_spec(url@) == Some(id@),
{
    let n = url.unicode_len();
    if n < 10 {
        return None;
    }
    let prefix = url.substring_char(0, 10);
    if !crate::text::str_eq(prefix, "automerge:") {
        return None;
    }
    let rest = url.substring_char(10, n);
    if is_valid_doc_id(rest) {
        Some(rest.to_owned())
    } else {
        None
    }
}

/// Prepend the `automerge:` scheme to a document id.
pub fn make_automerge_url(id: &str) -> (r: String)
    ensures
        r@ == "automerge:"@ + id@,
{
    let mut s = String::new();
    s.append("automerge:");
    s.append(id);
    s
}

/// The comma-separated parts of a string (an empty string is one empty
/// part, as splitting has it).
pub open spec fn split_commas(s: Seq<char>, i: int) -> Seq<Seq<char>>
    decreases s.len() - i,
    via split_commas_dec
{
    let e = crate::scene_parse::find_char_spec(s, i, ',');
    if e >= s.len() {
        seq![s.subrange(if i <= s.len() { i } else { s.len() as int }, s.len() as int)]
    } else {
        seq![s.subrange(if i <= e { i } else { e }, e)] + split_commas(s, e + 1)
    }
}

#[via_fn]
proof fn split_commas_dec(s: Seq<char>, i: int) {
    if i <= s.len() {
        crate::scene_parse::lemma_find_char(s, i, ',');
    }
}

/// Every listed part is a well-formed change hash.
pub open spec fn all_valid_hashes(parts: Seq<Seq<char>>) -> bool {
    forall|j: int| 0 <= j < parts.len() ==> valid_change_hash(#[trigger] parts[j])
}

fn parse_heads_from(chars: &Vec<char>, i: usize, out: &mut Vec<String>) -> (ok: bool)
    requires
        i <= chars@.len(),
    ensures
        ok == all_valid_hashes(split_commas(chars@, i as int)),
        ok ==> {
            &&& final(out)@.len() == old(out)@.len() + split_commas(chars@, i as int).len()
            &&& final(out)@.subrange(0, old(out)@.len() as int) == old(out)@
            &&& forall|j: int|
                0 <= j < split_commas(chars@, i as int).len() ==> #[trigger] final(out)@[old(
                    out,
                )@.len() + j]@ == split_commas(chars@, i as int)[j]
        },
    decreases chars@.len() - i,
{
    let e = crate::scene_parse::find_char(chars, i, ',');
    let part = crate::text::chars_to_string(&crate::text::subvec(chars, i, e));
    if !is_valid_change_hash(part.as_str()) {
        proof {
            assert(split_commas(chars@, i as int)[0] == part@);
        }
        return false;
    }
    let ghost out0 = out@;
    out.push(part);
    if e >= chars.len() {
        proof {
            assert(out@.subrange(0, out0.len() as int) =~= out0);
            assert(split_commas(chars@, i as int).len() == 1);
            assert(out@[out0.len() as int]@ == split_commas(chars@, i as int)[0]);
        }
        true
    } else {
        let ok = parse_heads_from(chars, e + 1, out);
        proof {
            let parts = split_commas(chars@, i as int);
            let rest = split_commas(chars@, e as int + 1);
            assert(parts == seq![chars@.subrange(i as int, e as int)] + rest);
            assert forall|j: int| 0 <= j < rest.len() implies #[trigger] parts[j + 1] == rest[j] by {}
            if ok {
                assert(all_valid_hashes(parts)) by {
                    assert forall|j: int| 0 <= j < parts.len() implies valid_change_hash(
                        #[trigger] parts[j],
                    ) by {
                        if j == 0 {
                            assert(parts[0] == part@);
                        } else {
                            assert(parts[j] == rest[j - 1]);
                        }
                    }
                }
                assert(out@.subrange(0, out0.len() as int) =~= out0) by {
                    assert(out@.subrange(0, out0.len() as int + 1).subrange(0, out0.len() as int)
                        =~= out@.subrange(0, out0.len() as int));
                }
                assert forall|j: int| 0 <= j < parts.len() implies #[trigger] out@[out0.len()
                    + j]@ == parts[j] by {
                    if j == 0 {
                        assert(out@.subrange(0, out0.len() as int + 1)[out0.len() as int]
                            == out@[out0.len() as int]);
                        assert(parts[0] == part@);
                    } else {
                        assert(out@[(out0.len() + 1) + (j - 1)]@ == rest[j - 1]);
                    }
                }
            } else {
                let j = choose|j: int| !(0 <= j < rest.len() ==> valid_change_hash(#[trigger] rest[j]));
                assert(parts[j + 1] == rest[j]);
                assert(!all_valid_hashes(parts));
            }
        }
        ok
    }
}

/// Parse a comma-joined list of change hashes, as the save command's
/// optional anchor.  `None` exactly when some part is not a change hash.
pub fn parse_heads(s: &str) -> (r: Option<Vec<String>>)
    ensures
        r is Some <==> all_valid_hashes(split_commas(s@, 0)),
        r matches Some(v) ==> {
            &&& v@.len() == split_commas(s@, 0).len()
            &&& forall|j: int|
                0 <= j < v@.len() ==> #[trigger] v@[j]@ == split_commas(s@, 0)[j]
        },
{
    let chars = crate::text::str_to_chars(s);
    let mut out: Vec<String> = Vec::new();
    if parse_heads_from(&chars, 0, &mut out) {
        proof {
            assert forall|j: int| 0 <= j < out@.len() implies #[trigger] out@[j]@ == split_commas(
                s@,
                0,
            )[j] by {
                assert(out@[0 + j]@ == split_commas(chars@, 0)[j]);
            }
        }
        Some(out)
    } else {
        None
    }
}

/// Splitting `automerge:<id>` back apart returns exactly the id, whenever the
/// id is well formed.
pub proof fn lemma_url_round_trip(id: Seq<char>)
    requires
        valid_doc_id(id),
    ensures
        parse_url_spec("automerge:"@ + id) == Some(id),
{
    reveal_strlit("automerge:");
    let url = "automerge:"@ + id;
    assert(url.subrange(0, 10) =~= "automerge:"@);
    assert(url.skip(10) =~= id);
}

} // verus!
