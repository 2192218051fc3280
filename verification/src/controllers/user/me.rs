//! What the endpoints of the signed-in user decide: which requests they
//! turn down and why, and what they answer or store for the others.

use crate::util::{same_chars, to_chars, trim_bounds, trimmed};
use std::collections::HashMap;
use vstd::prelude::*;
use vstd::string::StrSliceExecFns;

verus! {

/// Why a request was turned down.
#[derive(Clone, Copy, Debug, PartialEq, Eq, Structural)]
pub enum UserError {
    /// The request is about a user other than its sender.
    UserMismatch,
    /// The user id in the path is no number.
    InvalidUserId,
    /// The body of the request could not be read.
    InvalidJson,
    /// The request holds no email address.
    EmptyEmail,
    /// No email address belongs to the confirmation token.
    TokenNotFound,
}

pub open spec fn error_text(error: UserError) -> Seq<char> {
    match error {
        UserError::UserMismatch => "current user does not match requested user"@,
        UserError::InvalidUserId => "invalid user_id"@,
        UserError::InvalidJson => "invalid json request"@,
        UserError::EmptyEmail => "empty email rejected"@,
        UserError::TokenNotFound => "Email belonging to token not found."@,
    }
}

impl UserError {
    /// What the sender of the request is told.
    pub fn message(&self) -> (text: &'static str)
        ensures
            text@ == error_text(*self),
    {
        match self {
            UserError::UserMismatch => "current user does not match requested user",
            UserError::InvalidUserId => "invalid user_id",
            UserError::InvalidJson => "invalid json request",
            UserError::EmptyEmail => "empty email rejected",
            UserError::TokenNotFound => "Email belonging to token not found.",
        }
    }
}

// ---------------------------------------------------------------------------
// Numbers in paths
// ---------------------------------------------------------------------------

pub open spec fn is_digit(c: char) -> bool {
    '0' <= c && c <= '9'
}

/// The digit that stands for `d`, for `d` from 0 to 9.
pub open spec fn digit_of(d: int) -> char {
    ((48 + d) as u8) as char
}

/// The number that the digit `c` stands for.
pub open spec fn digit_value(c: char) -> int {
    (c as u8) - 48
}

/// The decimal digits of `n`, without leading zeros.
pub open spec fn digits_of(n: nat) -> Seq<char>
    decreases n,
{
    if n < 10 {
        seq![digit_of(n as int)]
    } else {
        digits_of(n / 10).push(digit_of((n % 10) as int))
    }
}

/// `n` in decimal, as it is printed: with `-` in front where it is negative.
pub open spec fn decimal(n: int) -> Seq<char> {
    if n < 0 {
        seq!['-'] + digits_of((-n) as nat)
    } else {
        digits_of(n as nat)
    }
}

pub open spec fn all_digits(s: Seq<char>) -> bool {
    forall|i: int| 0 <= i < s.len() ==> is_digit(#[trigger] s[i])
}

/// The number that the digits `s` stand for.
pub open spec fn digits_value(s: Seq<char>) -> int
    decreases s.len(),
{
    if s.len() == 0 {
        0
    } else {
        digits_value(s.drop_last()) * 10 + digit_value(s.last())
    }
}

/// The length of the sign in front of `s`: 1 or 0.
pub open spec fn sign_len(s: Seq<char>) -> int {
    if s.len() > 0 && (s[0] == '-' || s[0] == '+') {
        1
    } else {
        0
    }
}

/// The digits of `s`: what follows its sign.
pub open spec fn digits_part(s: Seq<char>) -> Seq<char> {
    s.subrange(sign_len(s), s.len() as int)
}

/// The number that `s` stands for, where it is a sign, if any, and digits.
pub open spec fn numeral_value(s: Seq<char>) -> int {
    if s.len() > 0 && s[0] == '-' {
        -digits_value(digits_part(s))
    } else {
        digits_value(digits_part(s))
    }
}

/// The number that `s` is read as: an optional `+` or `-`, then at least one
/// digit and nothing else, with a value that an `i32` can hold.
pub open spec fn parsed_i32(s: Seq<char>) -> Option<i32> {
    if digits_part(s).len() > 0 && all_digits(digits_part(s)) && i32::MIN <= numeral_value(s)
        <= i32::MAX {
        Some(numeral_value(s) as i32)
    } else {
        None
    }
}

proof fn lemma_digits_value_grows(s: Seq<char>, k: int)
    requires
        all_digits(s),
        0 <= k <= s.len(),
    ensures
        0 <= digits_value(s.take(k)) <= digits_value(s),
    decreases s.len() - k,
{
    if k == s.len() {
        assert(s.take(k) =~= s);
        lemma_digits_value_is_no_less_than_zero(s);
    } else {
        lemma_digits_value_grows(s, k + 1);
        assert(s.take(k + 1).drop_last() =~= s.take(k));
        assert(is_digit(s[k]));
        lemma_digits_value_is_no_less_than_zero(s.take(k));
    }
}

proof fn lemma_digits_value_is_no_less_than_zero(s: Seq<char>)
    requires
        all_digits(s),
    ensures
        0 <= digits_value(s),
    decreases s.len(),
{
    if s.len() > 0 {
        assert(is_digit(s.last()));
        lemma_digits_value_is_no_less_than_zero(s.drop_last());
    }
}

fn push_digits(out: &mut Vec<char>, n: u32)
    ensures
        final(out)@ == old(out)@ + digits_of(n as nat),
    decreases n,
{
    if n >= 10 {
        push_digits(out, n / 10);
    }
    let code: u8 = 48 + (n % 10) as u8;
    out.push(code as char);
    assert(out@ =~= old(out)@ + digits_of(n as nat));
}

/// `n` in decimal.
pub fn decimal_chars(n: i32) -> (text: Vec<char>)
    ensures
        text@ == decimal(n as int),
{
    let mut text: Vec<char> = Vec::new();
    if n < 0 {
        text.push('-');
        let wide: i64 = n as i64;
        push_digits(&mut text, (-wide) as u32);
    } else {
        push_digits(&mut text, n as u32);
        assert(text@ =~= decimal(n as int));
    }
    text
}

/// Reads `text` as an `i32`.
pub fn parse_i32(text: &str) -> (number: Option<i32>)
    ensures
        number == parsed_i32(text@),
{
    let chars = to_chars(text);
    let n = chars.len();
    let negative = n > 0 && chars[0] == '-';
    let start: usize = if n > 0 && (chars[0] == '-' || chars[0] == '+') {
        1
    } else {
        0
    };
    if start == n {
        return None;
    }
    let ghost digits = digits_part(chars@);
    let mut value: i64 = 0;
    let mut i: usize = start;
    while i < n
        invariant
            start <= i <= n,
            n == chars.len(),
            chars@ == text@,
            start == sign_len(chars@),
            digits == digits_part(chars@),
            digits.len() == n - start,
            forall|j: int| 0 <= j < digits.len() ==> digits[j] == chars@[start + j],
            all_digits(digits.take(i - start)),
            value == digits_value(digits.take(i - start)),
            0 <= value <= 2147483648,
        decreases n - i,
    {
        let c = chars[i];
        proof {
            assert(digits.take(i - start + 1).drop_last() =~= digits.take(i - start));
            assert(digits.take(i - start + 1).last() == c);
        }
        if !('0' <= c && c <= '9') {
            assert(!is_digit(digits[i - start]));
            assert(!all_digits(digits));
            return None;
        }
        let d: i64 = (c as u8 - 48) as i64;
        value = value * 10 + d;
        proof {
            assert forall|j: int| 0 <= j < digits.take(i - start + 1).len() implies is_digit(
                #[trigger] digits.take(i - start + 1)[j],
            ) by {
                if j < i - start {
                    assert(digits.take(i - start + 1)[j] == digits.take(i - start)[j]);
                }
            }
        }
        if value > 2147483648 {
            proof {
                if all_digits(digits) {
                    lemma_digits_value_grows(digits, i - start + 1);
                    assert(digits_value(digits) > 2147483648);
                }
            }
            return None;
        }
        i += 1;
    }
    proof {
        assert(digits.take(n - start) =~= digits);
    }
    if negative {
        Some((-value) as i32)
    } else if value > 2147483647 {
        None
    } else {
        Some(value as i32)
    }
}

// ---------------------------------------------------------------------------
// The endpoints
// ---------------------------------------------------------------------------

/// A package of the user, and whether they want email about it.
#[derive(Debug)]
pub struct OwnedCrate {
    pub id: i32,
    pub name: String,
    pub email_notifications: bool,
}

impl View for OwnedCrate {
    type V = (i32, Seq<char>, bool);

    open spec fn view(&self) -> (i32, Seq<char>, bool) {
        (self.id, self.name@, self.email_notifications)
    }
}

/// What a user is told about their own account.
#[derive(Debug)]
pub struct EncodableMe {
    pub email: Option<String>,
    pub email_verified: bool,
    pub email_verification_sent: bool,
    pub owned_crates: Vec<OwnedCrate>,
}

/// The packages that the rows of the owned packages stand for.
pub open spec fn owned_views(rows: Seq<(i32, String, bool)>) -> Seq<(i32, Seq<char>, bool)> {
    rows.map_values(|row: (i32, String, bool)| (row.0, row.1@, row.2))
}

/// The answer to `GET /me`, from what the data store holds of the user: an
/// address counts as verified only where the store says so, and a
/// verification counts as sent where one was sent or none is needed any more.
pub fn me(
    email: Option<String>,
    verified: Option<bool>,
    verification_sent: bool,
    owned: Vec<(i32, String, bool)>,
) -> (answer: EncodableMe)
    ensures
        answer.email == email,
        answer.email_verified == (verified == Some(true)),
        answer.email_verification_sent == (verified == Some(true) || verification_sent),
        answer.owned_crates@.map_values(|owned: OwnedCrate| owned@) == owned_views(owned@),
{
    let ghost rows = owned@;
    let mut owned_crates: Vec<OwnedCrate> = Vec::new();
    for row in it: owned
        invariant
            it.seq() == rows,
            owned_crates@.map_values(|owned: OwnedCrate| owned@) == owned_views(
                rows.take(it.index()),
            ),
    {
        let ghost before = owned_crates@.map_values(|owned: OwnedCrate| owned@);
        let (id, name, email_notifications) = row;
        owned_crates.push(OwnedCrate { id, name, email_notifications });
        assert(owned_crates@.map_values(|owned: OwnedCrate| owned@) =~= before.push(
            (row.0, row.1@, row.2),
        ));
        assert(owned_views(rows.take(it.index() + 1)) =~= owned_views(
            rows.take(it.index()),
        ).push((row.0, row.1@, row.2)));
    }
    assert(rows.take(rows.len() as int) =~= rows);
    let verified = match verified {
        Some(verified) => verified,
        None => false,
    };
    EncodableMe {
        email,
        email_verified: verified,
        email_verification_sent: verified || verification_sent,
        owned_crates,
    }
}

/// What `update_user` answers. The request must be about its sender, its
/// body must have been read, and the address in it must hold more than
/// whitespace.
pub open spec fn address_to_store(
    user_id: i32,
    param_user_id: Seq<char>,
    update: Option<Option<String>>,
) -> Result<Seq<char>, UserError> {
    if param_user_id != decimal(user_id as int) {
        Err(UserError::UserMismatch)
    } else {
        match update {
            None => Err(UserError::InvalidJson),
            Some(None) => Err(UserError::EmptyEmail),
            Some(Some(address)) => if trimmed(address@).len() == 0 {
                Err(UserError::EmptyEmail)
            } else {
                Ok(trimmed(address@))
            },
        }
    }
}

/// What `PUT /users/:user_id` decides before anything is stored. `update` is
/// the body of the request: `None` where it could not be read, else the
/// email address it holds, if any. The answer is the address to store,
/// without the whitespace around it.
pub fn update_user(user_id: i32, param_user_id: &str, update: Option<Option<String>>) -> (email:
    Result<String, UserError>)
    ensures
        match email {
            Ok(stored) => address_to_store(user_id, param_user_id@, update) == Ok::<
                Seq<char>,
                UserError,
            >(stored@),
            Err(error) => address_to_store(user_id, param_user_id@, update) == Err::<
                Seq<char>,
                UserError,
            >(error),
        },
{
    if !same_chars(&to_chars(param_user_id), &decimal_chars(user_id)) {
        return Err(UserError::UserMismatch);
    }
    let given = match update {
        None => {
            return Err(UserError::InvalidJson);
        },
        Some(given) => given,
    };
    let address = match given {
        None => {
            return Err(UserError::EmptyEmail);
        },
        Some(address) => address,
    };
    let chars = to_chars(address.as_str());
    let (start, end) = trim_bounds(&chars);
    if start == end {
        return Err(UserError::EmptyEmail);
    }
    Ok(address.as_str().substring_char(start, end).to_string())
}

/// What `PUT /confirm/:email_token` answers once the store has marked the
/// addresses of that token as verified: there must have been one.
pub fn confirm_user_email(updated_rows: usize) -> (confirmed: Result<(), UserError>)
    ensures
        confirmed == if updated_rows == 0 {
            Err::<(), UserError>(UserError::TokenNotFound)
        } else {
            Ok::<(), UserError>(())
        },
{
    if updated_rows == 0 {
        Err(UserError::TokenNotFound)
    } else {
        Ok(())
    }
}

/// What `PUT /user/:user_id/resend` decides before a new token is made: the
/// path must name a user, and that user must be the sender.
pub fn regenerate_token_and_send(user_id: i32, param_user_id: &str) -> (allowed: Result<
    (),
    UserError,
>)
    ensures
        allowed == match parsed_i32(param_user_id@) {
            None => Err::<(), UserError>(UserError::InvalidUserId),
            Some(named) => if named == user_id {
                Ok::<(), UserError>(())
            } else {
                Err::<(), UserError>(UserError::UserMismatch)
            },
        },
{
    match parse_i32(param_user_id) {
        None => Err(UserError::InvalidUserId),
        Some(named) => {
            if named == user_id {
                Ok(())
            } else {
                Err(UserError::UserMismatch)
            }
        },
    }
}

/// What a request says of one package: whether email about it is wanted.
#[derive(Clone, Copy, Debug, PartialEq, Eq, Structural)]
pub struct CrateEmailNotifications {
    pub id: i32,
    pub email_notifications: bool,
}

/// One ownership as the store holds it.
#[derive(Clone, Copy, Debug, PartialEq, Eq, Structural)]
pub struct CrateOwnerRow {
    pub crate_id: i32,
    pub owner_id: i32,
    pub owner_kind: i32,
    pub email_notifications: bool,
}

/// What a request wants for each package it names. Where it names a package
/// more than once, what it says last counts.
pub open spec fn requested(updates: Seq<CrateEmailNotifications>) -> Map<i32, bool>
    decreases updates.len(),
{
    if updates.len() == 0 {
        Map::empty()
    } else {
        requested(updates.drop_last()).insert(
            updates.last().id,
            updates.last().email_notifications,
        )
    }
}

/// The row as it is to be stored: with what the request wants for its
/// package, or unchanged where the request does not name it.
pub open spec fn updated_row(wanted: Map<i32, bool>, row: CrateOwnerRow) -> CrateOwnerRow {
    CrateOwnerRow {
        crate_id: row.crate_id,
        owner_id: row.owner_id,
        owner_kind: row.owner_kind,
        email_notifications: if wanted.contains_key(row.crate_id) {
            wanted[row.crate_id]
        } else {
            row.email_notifications
        },
    }
}

/// What `PUT /me/email_notifications` stores: every ownership of the sender,
/// each with the setting that the request wants for it.
pub fn update_email_notifications(
    updates: &Vec<CrateEmailNotifications>,
    owned: &Vec<CrateOwnerRow>,
) -> (to_insert: Vec<CrateOwnerRow>)
    ensures
        to_insert@ == owned@.map_values(|row: CrateOwnerRow| updated_row(requested(updates@), row)),
{
    broadcast use vstd::std_specs::hash::group_hash_axioms;

    let mut wanted: HashMap<i32, bool> = HashMap::new();
    let mut i: usize = 0;
    while i < updates.len()
        invariant
            i <= updates.len(),
            wanted@ == requested(updates@.take(i as int)),
        decreases updates.len() - i,
    {
        assert(updates@.take(i + 1).drop_last() =~= updates@.take(i as int));
        wanted.insert(updates[i].id, updates[i].email_notifications);
        i += 1;
    }
    assert(updates@.take(updates.len() as int) =~= updates@);
    let mut to_insert: Vec<CrateOwnerRow> = Vec::new();
    let mut k: usize = 0;
    while k < owned.len()
        invariant
            k <= owned.len(),
            wanted@ == requested(updates@),
            to_insert@ == owned@.take(k as int).map_values(
                |row: CrateOwnerRow| updated_row(requested(updates@), row),
            ),
        decreases owned.len() - k,
    {
        let row = owned[k];
        let email_notifications = match wanted.get(&row.crate_id) {
            Some(wanted) => *wanted,
            None => row.email_notifications,
        };
        to_insert.push(
            CrateOwnerRow {
                crate_id: row.crate_id,
                owner_id: row.owner_id,
                owner_kind: row.owner_kind,
                email_notifications,
            },
        );
        assert(to_insert@ =~= owned@.take(k + 1).map_values(
            |row: CrateOwnerRow| updated_row(requested(updates@), row),
        ));
        k += 1;
    }
    assert(owned@.take(owned.len() as int) =~= owned@);
    to_insert
}

} // verus!
