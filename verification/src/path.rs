//! The paths of the user resource and of the collections below it.

use crate::text::{
    all_digits, append_decimal, decimal, decimal_value, digit_value, last_segment, last_slash,
    lemma_decimal_reads_back, parse_decimal, read_last_segment,
};
use vstd::prelude::*;
use vstd::string::StringExecFns;

verus! {

/// The path of the list of users.
pub open spec fn users_path() -> Seq<char> {
    "/users"@
}

/// The path of the user with the given id.
pub open spec fn user_path(id: nat) -> Seq<char> {
    "/users/"@ + decimal(id)
}

/// The path of a collection that belongs to a user.
pub open spec fn user_collection_path(id: nat, collection: Seq<char>) -> Seq<char> {
    user_path(id) + "/"@ + collection
}

/// The address of the page that a permalink names.
pub open spec fn permalink_address(permalink: Seq<char>) -> Seq<char> {
    "https://soundcloud.com/"@ + permalink
}

/// Builds the path of the user with the given id.
pub fn build_user_path(id: usize) -> (path: String)
    ensures
        path@ == user_path(id as nat),
{
    let mut path = String::from_str("/users/");
    append_decimal(&mut path, id);
    path
}

/// Builds the path of a collection that belongs to a user.
pub fn build_user_collection_path(id: usize, collection: &str) -> (path: String)
    ensures
        path@ == user_collection_path(id as nat, collection@),
{
    let mut path = build_user_path(id);
    path.append("/");
    path.append(collection);
    path
}

/// Builds the address of the page that a permalink names.
pub fn build_permalink_address(permalink: &str) -> (address: String)
    ensures
        address@ == permalink_address(permalink@),
{
    let mut address = String::from_str("https://soundcloud.com/");
    address.append(permalink);
    address
}

/// The id of the user whose resource has this path: the number that the
/// last segment of the path denotes, where it fits a user id.
pub open spec fn resolved_user_id(path: Seq<char>) -> Option<usize> {
    match last_segment(path) {
        Some(segment) => match decimal_value(segment) {
            Some(id) => if id <= usize::MAX {
                Some(id as usize)
            } else {
                None
            },
            None => None,
        },
        None => None,
    }
}

/// Reads the id of the user whose resource has this path.
pub fn read_user_id(path: &str) -> (id: Option<usize>)
    ensures
        id == resolved_user_id(path@),
{
    match read_last_segment(path) {
        Some(segment) => parse_decimal(segment),
        None => None,
    }
}

/// Digits at the end of a text do not move its last `/`.
proof fn lemma_digits_hold_no_slash(text: Seq<char>, digits: Seq<char>)
    requires
        all_digits(digits),
    ensures
        last_slash(text + digits) == last_slash(text),
    decreases digits.len(),
{
    if digits.len() == 0 {
        assert(text + digits =~= text);
    } else {
        let shorter = digits.drop_last();
        assert forall|i: int| 0 <= i < shorter.len() implies digit_value(#[trigger] shorter[i])
            is Some by {
            assert(shorter[i] == digits[i]);
        }
        lemma_digits_hold_no_slash(text, shorter);
        assert((text + digits).drop_last() =~= text + shorter);
        assert(digit_value(digits[digits.len() - 1]) is Some);
    }
}

/// The path of a user's resource leads back to the user: its last segment
/// is the user's id.
pub proof fn lemma_user_path_resolves(id: usize)
    ensures
        resolved_user_id(user_path(id as nat)) == Some(id),
{
    let head = "/users/"@;
    let digits = decimal(id as nat);
    let path = user_path(id as nat);
    reveal_strlit("/users/");
    lemma_decimal_reads_back(id as nat);
    lemma_digits_hold_no_slash(head, digits);
    assert(head.last() == '/');
    assert(last_slash(head) == 6);
    assert(path[0] == '/');
    assert(path.subrange(7, path.len() as int) =~= digits);
}

} // verus!
