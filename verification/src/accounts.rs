use vstd::prelude::*;
use vstd::string::*;
use crate::text::{after_nth_char, char_count, dot_prefixed, ends_with, join2, same_text, text_after_nth};
use crate::outside::{parse_account_id, transfer_port_id};

verus! {

/// Why a caller is refused.
#[derive(Clone, Copy, Debug, PartialEq, Eq, Structural)]
pub enum AccessError {
    NotRootAccount,
    NotParentAccount,
    NotGrandparentAccount,
    NotSubAccount,
    NotAncestorAccount,
    NoGrandparentAccount,
}

impl AccessError {
    /// The message that the contracts fail with.
    pub fn message(&self) -> (r: &'static str)
        ensures
            r@ == self.message_text(),
    {
        match self {
            AccessError::NotRootAccount => "ERR_ONLY_ROOT_ACCOUNT_CAN_CALL_THIS_METHOD",
            AccessError::NotParentAccount => "ERR_ONLY_PARENT_ACCOUNT_CAN_CALL_THIS_METHOD",
            AccessError::NotGrandparentAccount => "ERR_ONLY_GRANDPARENT_ACCOUNT_CAN_CALL_THIS_METHOD",
            AccessError::NotSubAccount => "ERR_ONLY_SUB_ACCOUNT_CAN_CALL_THIS_METHOD",
            AccessError::NotAncestorAccount => "ERR_ONLY_UPPER_LEVEL_ACCOUNT_CAN_CALL_THIS_METHOD",
            AccessError::NoGrandparentAccount => "ERR_NO_GRANDPARENT_ACCOUNT_FOUND",
        }
    }

    /// The message of the error, as text.
    pub open spec fn message_text(&self) -> Seq<char> {
        match self {
            AccessError::NotRootAccount => "ERR_ONLY_ROOT_ACCOUNT_CAN_CALL_THIS_METHOD"@,
            AccessError::NotParentAccount => "ERR_ONLY_PARENT_ACCOUNT_CAN_CALL_THIS_METHOD"@,
            AccessError::NotGrandparentAccount => "ERR_ONLY_GRANDPARENT_ACCOUNT_CAN_CALL_THIS_METHOD"@,
            AccessError::NotSubAccount => "ERR_ONLY_SUB_ACCOUNT_CAN_CALL_THIS_METHOD"@,
            AccessError::NotAncestorAccount => "ERR_ONLY_UPPER_LEVEL_ACCOUNT_CAN_CALL_THIS_METHOD"@,
            AccessError::NoGrandparentAccount => "ERR_NO_GRANDPARENT_ACCOUNT_FOUND"@,
        }
    }
}

/// A separator of the parts of a NEAR account id.
pub open spec fn is_account_separator(c: char) -> bool {
    c == '-' || c == '_' || c == '.'
}

/// A character that a NEAR account id may hold: a lower-case letter, a digit or a
/// separator.
pub open spec fn is_account_char(c: char) -> bool {
    ('a' <= c && c <= 'z') || ('0' <= c && c <= '9') || is_account_separator(c)
}

/// A valid NEAR account id: two to sixty-four characters that it may hold, which
/// neither start nor end with a separator and have no two separators in a row.
pub open spec fn valid_account_id(s: Seq<char>) -> bool {
    &&& 2 <= s.len() <= 64
    &&& forall|i: int| 0 <= i < s.len() ==> is_account_char(#[trigger] s[i])
    &&& !is_account_separator(s[0])
    &&& !is_account_separator(s[s.len() - 1])
    &&& forall|i: int| 0 <= i < s.len() - 1 ==> !(is_account_separator(#[trigger] s[i]) && is_account_separator(s[i + 1]))
}

/// The last two parts of a dotted account id, such as `near-ibc.near` for
/// `transfer.near-ibc.near`.
pub open spec fn root_account_of(account: Seq<char>) -> Seq<char> {
    if char_count(account, '.') == 1 {
        account
    } else {
        after_nth_char(account, '.', (char_count(account, '.') - 2) as nat)
    }
}

/// The account id without its first part.
pub open spec fn parent_account_of(account: Seq<char>) -> Seq<char> {
    after_nth_char(account, '.', 0)
}

/// The account id without its first two parts.
pub open spec fn grandparent_account_of(account: Seq<char>) -> Seq<char> {
    after_nth_char(account, '.', 1)
}

/// `account` is a sub-account of `parent`: it ends with a dot and `parent`.
pub open spec fn is_sub_account_of(account: Seq<char>, parent: Seq<char>) -> bool {
    let suffix = seq!['.'] + parent;
    suffix.len() <= account.len() && account.subrange(account.len() - suffix.len(), account.len() as int) == suffix
}

/// The predecessor must be the root account of the current account: the last
/// two parts of the current account id.
pub fn assert_root_account(current_account_id: &str, predecessor_account_id: &str) -> (r: Result<(), AccessError>)
    requires
        char_count(current_account_id@, '.') >= 1,
    ensures
        r is Ok <==> predecessor_account_id@ == root_account_of(current_account_id@),
        r is Err ==> r == Err::<(), AccessError>(AccessError::NotRootAccount),
{
    let dots = crate::text::count_char(current_account_id, '.');
    let root = if dots == 1 {
        String::from_str(current_account_id)
    } else {
        match text_after_nth(current_account_id, '.', dots - 2) {
            Some(t) => t,
            None => String::from_str(current_account_id),
        }
    };
    if same_text(predecessor_account_id, root.as_str()) {
        Ok(())
    } else {
        Err(AccessError::NotRootAccount)
    }
}

/// The predecessor must be the parent account of the current account.
pub fn assert_parent_account(current_account_id: &str, predecessor_account_id: &str) -> (r: Result<(), AccessError>)
    requires
        char_count(current_account_id@, '.') >= 1,
    ensures
        r is Ok <==> predecessor_account_id@ == parent_account_of(current_account_id@),
        r is Err ==> r == Err::<(), AccessError>(AccessError::NotParentAccount),
{
    match text_after_nth(current_account_id, '.', 0) {
        Some(parent) => {
            if same_text(predecessor_account_id, parent.as_str()) {
                Ok(())
            } else {
                Err(AccessError::NotParentAccount)
            }
        },
        None => Err(AccessError::NotParentAccount),
    }
}

/// The predecessor must be the grandparent account of the current account, which
/// must have more than three parts.
pub fn assert_grandparent_account(current_account_id: &str, predecessor_account_id: &str) -> (r: Result<(), AccessError>)
    ensures
        r is Ok <==> char_count(current_account_id@, '.') >= 3
            && predecessor_account_id@ == grandparent_account_of(current_account_id@),
        r is Err ==> r == Err::<(), AccessError>(AccessError::NotGrandparentAccount),
{
    let dots = crate::text::count_char(current_account_id, '.');
    if dots < 3 {
        return Err(AccessError::NotGrandparentAccount);
    }
    match text_after_nth(current_account_id, '.', 1) {
        Some(grandparent) => {
            if same_text(predecessor_account_id, grandparent.as_str()) {
                Ok(())
            } else {
                Err(AccessError::NotGrandparentAccount)
            }
        },
        None => Err(AccessError::NotGrandparentAccount),
    }
}

/// The predecessor must be a sub-account of the current account.
pub fn assert_sub_account(current_account_id: &str, predecessor_account_id: &str) -> (r: Result<(), AccessError>)
    ensures
        r is Ok <==> is_sub_account_of(predecessor_account_id@, current_account_id@),
        r is Err ==> r == Err::<(), AccessError>(AccessError::NotSubAccount),
{
    let suffix = dot_prefixed(current_account_id);
    if ends_with(predecessor_account_id, suffix.as_str()) {
        Ok(())
    } else {
        Err(AccessError::NotSubAccount)
    }
}

/// The predecessor must be an ancestor account of the current account.
pub fn assert_ancestor_account(current_account_id: &str, predecessor_account_id: &str) -> (r: Result<(), AccessError>)
    ensures
        r is Ok <==> is_sub_account_of(current_account_id@, predecessor_account_id@),
        r is Err ==> r == Err::<(), AccessError>(AccessError::NotAncestorAccount),
{
    let suffix = dot_prefixed(predecessor_account_id);
    if ends_with(current_account_id, suffix.as_str()) {
        Ok(())
    } else {
        Err(AccessError::NotAncestorAccount)
    }
}

/// The grandparent account id of the current account, which must have more than
/// three parts.
pub fn get_grandparent_account_id(current_account_id: &str) -> (r: Result<String, AccessError>)
    ensures
        r is Ok <==> char_count(current_account_id@, '.') >= 3,
        r matches Ok(g) ==> g@ == grandparent_account_of(current_account_id@),
        r is Err ==> r == Err::<String, AccessError>(AccessError::NoGrandparentAccount),
{
    let dots = crate::text::count_char(current_account_id, '.');
    if dots < 3 {
        return Err(AccessError::NoGrandparentAccount);
    }
    match text_after_nth(current_account_id, '.', 1) {
        Some(g) => Ok(g),
        None => Err(AccessError::NoGrandparentAccount),
    }
}

/// The account of the token factory: `tf.transfer.` followed by the current account id.
pub open spec fn token_factory_id(current_account_id: Seq<char>) -> Seq<char> {
    seq!['t', 'f', '.'] + "transfer"@ + seq!['.'] + current_account_id
}

/// The account of the escrow factory: `ef.transfer.` followed by the current account id.
pub open spec fn escrow_factory_id(current_account_id: Seq<char>) -> Seq<char> {
    seq!['e', 'f', '.'] + "transfer"@ + seq!['.'] + current_account_id
}

/// The account of the token factory; `None` when that is no valid account id, as
/// when it gets too long.
pub fn get_token_factory_contract_id(current_account_id: &str) -> (r: Option<String>)
    ensures
        r is Some <==> valid_account_id(token_factory_id(current_account_id@)),
        r matches Some(id) ==> id@ == token_factory_id(current_account_id@),
{
    let port = transfer_port_id();
    proof {
        reveal_strlit("tf.");
    }
    let head = join2("tf.", port);
    let id = crate::text::join_dot(head.as_str(), current_account_id);
    proof {
        assert(id@ =~= token_factory_id(current_account_id@));
    }
    if parse_account_id(id.as_str()) {
        Some(id)
    } else {
        None
    }
}

/// The account of the escrow factory; `None` when that is no valid account id, as
/// when it gets too long.
pub fn get_escrow_factory_contract_id(current_account_id: &str) -> (r: Option<String>)
    ensures
        r is Some <==> valid_account_id(escrow_factory_id(current_account_id@)),
        r matches Some(id) ==> id@ == escrow_factory_id(current_account_id@),
{
    let port = transfer_port_id();
    proof {
        reveal_strlit("ef.");
    }
    let head = join2("ef.", port);
    let id = crate::text::join_dot(head.as_str(), current_account_id);
    proof {
        assert(id@ =~= escrow_factory_id(current_account_id@));
    }
    if parse_account_id(id.as_str()) {
        Some(id)
    } else {
        None
    }
}

} // verus!
