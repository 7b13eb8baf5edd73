//! Accounts on the game's servers: the replies they send, the state an
//! upload builds up (inquiry code, password, tokens), the headers that sign a
//! request, and the managed items an upload reports.

use vstd::prelude::*;
use crate::network::account_info::{EditorAccountInfo, GameAccountInfo};
use crate::network::signature::{sign_v2, signature_v2, RandomError};
use crate::save::GVCC;
use crate::text::{ascii_chars, decimal_string, digits};

verus! {

/// A reply of the servers that carried no payload.
#[derive(Debug, Clone, Copy, PartialEq, Eq)]
pub struct NullPayload;

/// A reply of the auth server.
#[derive(Debug)]
pub struct RequestJsonResponseV1<P> {
    pub status_code: i32,
    pub timestamp: i32,
    pub payload: Option<P>,
    pub nonce: String,
}

impl<P> RequestJsonResponseV1<P> {
    /// The payload, or `NullPayload` where there is none.
    pub fn into_payload(self) -> (res: Result<P, NullPayload>)
        ensures
            match self.payload {
                Some(p) => res == Ok::<P, NullPayload>(p),
                None => res == Err::<P, NullPayload>(NullPayload),
            },
    {
        match self.payload {
            Some(p) => Ok(p),
            None => Err(NullPayload),
        }
    }
}

/// A reply of the save and managed-item servers.
#[derive(Debug)]
pub struct RequestJsonResponseV2<P> {
    pub status_code: Option<i32>,
    pub timestamp: Option<i32>,
    pub payload: Option<P>,
    pub nonce: Option<String>,
    pub message: Option<String>,
    pub code: Option<String>,
}

impl<P> RequestJsonResponseV2<P> {
    /// The payload, or `NullPayload` where there is none.
    pub fn into_payload(self) -> (res: Result<P, NullPayload>)
        ensures
            match self.payload {
                Some(p) => res == Ok::<P, NullPayload>(p),
                None => res == Err::<P, NullPayload>(NullPayload),
            },
    {
        match self.payload {
            Some(p) => Ok(p),
            None => Err(NullPayload),
        }
    }
}

/// A password, with the token that renews it.
#[derive(Debug, Clone)]
pub struct PasswordJsonResponse {
    pub password: String,
    pub password_refresh_token: String,
    pub account_code: Option<String>,
}

/// The body that registers an account.
#[derive(Debug, Clone, Copy)]
pub struct NewAccountPayload {
    pub account_created_at: u64,
}

/// The reply to creating an account: its inquiry code.
#[derive(Debug, Clone)]
pub struct NewAccountJsonResponse {
    pub success: bool,
    pub account_id: String,
}

#[derive(Debug, Clone)]
pub struct NewAccountData {
    pub password: String,
    pub password_refresh_token: String,
    pub inquiry_code: String,
}

/// What an upload reports of a save.
#[derive(Debug, Clone)]
pub struct UploadInfo {
    pub inquiry_code: Option<String>,
    pub password_refresh_token: Option<String>,
    pub gvcc: GVCC,
    pub catfood: i32,
    pub rare_tickets: i32,
    pub platinum_tickets: i32,
    pub legend_tickets: i32,
    pub playtime: i32,
    pub user_rank: i32,
}

#[derive(Debug, Clone)]
pub struct NewAccountInfo {
    pub account_info: GameAccountInfo,
    pub password_refresh_token: String,
    pub inquiry_code: String,
}

/// The counts of managed items that the server is told of.
#[derive(Debug, Clone, Copy, PartialEq, Eq)]
pub struct ManagedItemsUpdate {
    pub catfood_amount: i32,
    pub is_paid: bool,
    pub legend_ticket_amount: i32,
    pub platinum_ticket_amount: i32,
    pub rare_ticket_amount: i32,
}

/// What an upload knows of its account so far.
#[derive(Debug, Clone)]
pub struct AccountState {
    pub inquiry_code: Option<String>,
    pub account_info: GameAccountInfo,
    pub password_refresh_token: Option<String>,
    pub gvcc: GVCC,
    pub items: ManagedItemsUpdate,
    pub account_created_at: u64,
}

/// The text of an optional string.
pub open spec fn opt_view(s: Option<String>) -> Option<Seq<char>> {
    match s {
        Some(v) => Some(v@),
        None => None,
    }
}

fn clone_opt(s: &Option<String>) -> (c: Option<String>)
    ensures
        opt_view(c) == opt_view(*s),
{
    match s {
        Some(v) => Some(v.clone()),
        None => None,
    }
}

impl AccountState {
    /// The state an upload starts from: what the save and the editor know,
    /// the counts of the save's items (none paid for) and no creation time.
    pub fn for_upload(info: &UploadInfo, account_info: &EditorAccountInfo) -> (s: AccountState)
        ensures
            opt_view(s.inquiry_code) == opt_view(info.inquiry_code),
            opt_view(s.password_refresh_token) == opt_view(info.password_refresh_token),
            opt_view(s.account_info.password) == opt_view(account_info.account_info.password),
            opt_view(s.account_info.auth_token) == opt_view(account_info.account_info.auth_token),
            s.gvcc == info.gvcc,
            s.items == (ManagedItemsUpdate {
                catfood_amount: info.catfood,
                is_paid: false,
                legend_ticket_amount: info.legend_tickets,
                platinum_ticket_amount: info.platinum_tickets,
                rare_ticket_amount: info.rare_tickets,
            }),
            s.account_created_at == 0,
    {
        AccountState {
            inquiry_code: clone_opt(&info.inquiry_code),
            account_info: GameAccountInfo {
                password: clone_opt(&account_info.account_info.password),
                auth_token: clone_opt(&account_info.account_info.auth_token),
            },
            password_refresh_token: clone_opt(&info.password_refresh_token),
            gvcc: info.gvcc,
            items: ManagedItemsUpdate {
                catfood_amount: info.catfood,
                is_paid: false,
                legend_ticket_amount: info.legend_tickets,
                platinum_ticket_amount: info.platinum_tickets,
                rare_ticket_amount: info.rare_tickets,
            },
            account_created_at: 0,
        }
    }

    /// The inquiry code, where it is known and no request is needed for it.
    pub fn known_inquiry_code(&self) -> (c: Option<String>)
        ensures
            opt_view(c) == opt_view(self.inquiry_code),
    {
        clone_opt(&self.inquiry_code)
    }

    /// The password refresh token, where it is known.
    pub fn known_password_refresh_token(&self) -> (c: Option<String>)
        ensures
            opt_view(c) == opt_view(self.password_refresh_token),
    {
        clone_opt(&self.password_refresh_token)
    }

    /// The password, where it is known.
    pub fn known_password(&self) -> (c: Option<String>)
        ensures
            opt_view(c) == opt_view(self.account_info.password),
    {
        clone_opt(&self.account_info.password)
    }

    /// The auth token, where it is known.
    pub fn known_auth_token(&self) -> (c: Option<String>)
        ensures
            opt_view(c) == opt_view(self.account_info.auth_token),
    {
        clone_opt(&self.account_info.auth_token)
    }

    /// Keeps the inquiry code of a newly created account.
    pub fn record_inquiry_code(&mut self, inquiry_code: String)
        ensures
            final(self).inquiry_code == Some(inquiry_code),
            final(self).account_info == old(self).account_info,
            final(self).password_refresh_token == old(self).password_refresh_token,
            final(self).gvcc == old(self).gvcc,
            final(self).items == old(self).items,
            final(self).account_created_at == old(self).account_created_at,
    {
        self.inquiry_code = Some(inquiry_code);
    }

    /// Keeps what registering an account gave (its password and refresh
    /// token) and gives back the refresh token.
    pub fn record_registration(&mut self, payload: PasswordJsonResponse) -> (token: String)
        ensures
            token@ == payload.password_refresh_token@,
            opt_view(final(self).password_refresh_token) == Some(payload.password_refresh_token@),
            opt_view(final(self).account_info.password) == Some(payload.password@),
            final(self).account_info.auth_token == old(self).account_info.auth_token,
            final(self).inquiry_code == old(self).inquiry_code,
            final(self).gvcc == old(self).gvcc,
            final(self).items == old(self).items,
            final(self).account_created_at == old(self).account_created_at,
    {
        let token = payload.password_refresh_token.clone();
        self.password_refresh_token = Some(payload.password_refresh_token);
        self.account_info.password = Some(payload.password);
        token
    }

    /// Keeps a new password and refresh token and, where the reply names an
    /// account, its inquiry code. Gives back the password, and whether the
    /// reply named an account, which then has to be set up.
    pub fn record_password(&mut self, payload: PasswordJsonResponse) -> (res: (String, bool))
        ensures
            res.0@ == payload.password@,
            res.1 == payload.account_code is Some,
            opt_view(final(self).password_refresh_token) == Some(payload.password_refresh_token@),
            opt_view(final(self).account_info.password) == Some(payload.password@),
            final(self).account_info.auth_token == old(self).account_info.auth_token,
            final(self).inquiry_code == match payload.account_code {
                Some(c) => Some(c),
                None => old(self).inquiry_code,
            },
            final(self).gvcc == old(self).gvcc,
            final(self).items == old(self).items,
            final(self).account_created_at == old(self).account_created_at,
    {
        let password = payload.password.clone();
        self.password_refresh_token = Some(payload.password_refresh_token);
        self.account_info.password = Some(payload.password);
        let new_account = match payload.account_code {
            Some(c) => {
                self.inquiry_code = Some(c);
                true
            },
            None => false,
        };
        (password, new_account)
    }

    /// Keeps the auth token that the server gave.
    pub fn record_auth_token(&mut self, token: String)
        ensures
            final(self).account_info.auth_token == Some(token),
            final(self).account_info.password == old(self).account_info.password,
            final(self).inquiry_code == old(self).inquiry_code,
            final(self).password_refresh_token == old(self).password_refresh_token,
            final(self).gvcc == old(self).gvcc,
            final(self).items == old(self).items,
            final(self).account_created_at == old(self).account_created_at,
    {
        self.account_info.auth_token = Some(token);
    }
}

/* What to ask the servers next */

/// What an upload sets out to obtain for its account.
#[derive(Debug, Clone, Copy, PartialEq, Eq, Structural)]
pub enum AccountGoal {
    InquiryCode,
    PasswordRefreshToken,
    Password,
    AuthToken,
    /// Setting up a newly created account: reporting its managed items.
    NewAccountSetup,
}

/// The next thing to do on the way to a goal.
#[derive(Debug, Clone, Copy, PartialEq, Eq, Structural)]
pub enum AccountAction {
    /// The goal is reached.
    Done,
    /// Reach another goal first.
    Obtain(AccountGoal),
    /// Create an account and keep its inquiry code.
    CreateAccount,
    /// Register the account and keep what the reply gives.
    Register,
    /// Renew the password with the refresh token.
    RefreshPassword,
    /// Renewing gave nothing: register the account again for a password.
    RegisterForPassword,
    /// Ask for an auth token with the password.
    GetAuthToken,
    /// Report the managed items of a new account.
    UpdateManagedItems,
}

/// What the last step on the way to a goal brought that decides the next.
#[derive(Debug, Clone, Copy, PartialEq, Eq, Structural)]
pub enum AccountReply {
    /// Nothing that changes the way.
    Plain,
    /// Renewing the password gave no payload.
    NoPayload,
    /// The password's reply named an account, which has to be set up.
    NewAccount,
}

/// Whether the state already holds what the goal is for.
pub open spec fn goal_known(s: AccountState, goal: AccountGoal) -> bool {
    match goal {
        AccountGoal::InquiryCode => s.inquiry_code is Some,
        AccountGoal::PasswordRefreshToken => s.password_refresh_token is Some,
        AccountGoal::Password => s.account_info.password is Some,
        AccountGoal::AuthToken => s.account_info.auth_token is Some,
        AccountGoal::NewAccountSetup => false,
    }
}

/// The step `step` (from 0) on the way to `goal`. A goal already known at
/// the start is done at once. Otherwise: an inquiry code comes from creating
/// an account; a refresh token from registering, with an inquiry code; a
/// password from renewing it, with a refresh token and an inquiry code,
/// registering again where renewing gives nothing, then setting up the
/// account where the reply names a new one; an auth token from asking with
/// a password and an inquiry code; setting up an account reports its
/// managed items, with an auth token and an inquiry code.
pub open spec fn spec_next_action(known: bool, goal: AccountGoal, step: nat, reply: AccountReply) -> AccountAction {
    if known && step == 0 {
        AccountAction::Done
    } else {
        match goal {
            AccountGoal::InquiryCode => if step == 0 {
                AccountAction::CreateAccount
            } else {
                AccountAction::Done
            },
            AccountGoal::PasswordRefreshToken => if step == 0 {
                AccountAction::Obtain(AccountGoal::InquiryCode)
            } else if step == 1 {
                AccountAction::Register
            } else {
                AccountAction::Done
            },
            AccountGoal::Password => if step == 0 {
                AccountAction::Obtain(AccountGoal::PasswordRefreshToken)
            } else if step == 1 {
                AccountAction::Obtain(AccountGoal::InquiryCode)
            } else if step == 2 {
                AccountAction::RefreshPassword
            } else if step == 3 && reply == AccountReply::NoPayload {
                AccountAction::RegisterForPassword
            } else if reply == AccountReply::NewAccount {
                AccountAction::Obtain(AccountGoal::NewAccountSetup)
            } else {
                AccountAction::Done
            },
            AccountGoal::AuthToken => if step == 0 {
                AccountAction::Obtain(AccountGoal::Password)
            } else if step == 1 {
                AccountAction::Obtain(AccountGoal::InquiryCode)
            } else if step == 2 {
                AccountAction::GetAuthToken
            } else {
                AccountAction::Done
            },
            AccountGoal::NewAccountSetup => if step == 0 {
                AccountAction::Obtain(AccountGoal::AuthToken)
            } else if step == 1 {
                AccountAction::Obtain(AccountGoal::InquiryCode)
            } else if step == 2 {
                AccountAction::UpdateManagedItems
            } else {
                AccountAction::Done
            },
        }
    }
}

impl AccountState {
    /// The next thing to do on the way to `goal`, after `step` steps, given
    /// what the last one brought.
    pub fn next_action(&self, goal: AccountGoal, step: usize, reply: AccountReply) -> (a: AccountAction)
        ensures
            a == spec_next_action(goal_known(*self, goal), goal, step as nat, reply),
    {
        let known = match goal {
            AccountGoal::InquiryCode => self.inquiry_code.is_some(),
            AccountGoal::PasswordRefreshToken => self.password_refresh_token.is_some(),
            AccountGoal::Password => self.account_info.password.is_some(),
            AccountGoal::AuthToken => self.account_info.auth_token.is_some(),
            AccountGoal::NewAccountSetup => false,
        };
        if known && step == 0 {
            return AccountAction::Done;
        }
        match goal {
            AccountGoal::InquiryCode => if step == 0 {
                AccountAction::CreateAccount
            } else {
                AccountAction::Done
            },
            AccountGoal::PasswordRefreshToken => if step == 0 {
                AccountAction::Obtain(AccountGoal::InquiryCode)
            } else if step == 1 {
                AccountAction::Register
            } else {
                AccountAction::Done
            },
            AccountGoal::Password => if step == 0 {
                AccountAction::Obtain(AccountGoal::PasswordRefreshToken)
            } else if step == 1 {
                AccountAction::Obtain(AccountGoal::InquiryCode)
            } else if step == 2 {
                AccountAction::RefreshPassword
            } else if step == 3 && matches!(reply, AccountReply::NoPayload) {
                AccountAction::RegisterForPassword
            } else if matches!(reply, AccountReply::NewAccount) {
                AccountAction::Obtain(AccountGoal::NewAccountSetup)
            } else {
                AccountAction::Done
            },
            AccountGoal::AuthToken => if step == 0 {
                AccountAction::Obtain(AccountGoal::Password)
            } else if step == 1 {
                AccountAction::Obtain(AccountGoal::InquiryCode)
            } else if step == 2 {
                AccountAction::GetAuthToken
            } else {
                AccountAction::Done
            },
            AccountGoal::NewAccountSetup => if step == 0 {
                AccountAction::Obtain(AccountGoal::AuthToken)
            } else if step == 1 {
                AccountAction::Obtain(AccountGoal::InquiryCode)
            } else if step == 2 {
                AccountAction::UpdateManagedItems
            } else {
                AccountAction::Done
            },
        }
    }
}

/// The auth token that the server gave.
#[derive(Debug, Clone)]
pub struct AuthTokenJsonResponse {
    pub token: String,
}

/// Where and how to post a save.
#[derive(Debug, Clone)]
pub struct SaveKeyJsonResponse {
    pub url: String,
    pub key: String,
    pub policy: String,
    pub x_amz_algorithm: String,
    pub x_amz_credential: String,
    pub x_amz_date: String,
    pub x_amz_security_token: String,
    pub x_amz_signature: String,
}

/// Whether a managed item was got or used.
#[derive(Debug, Copy, Clone, PartialEq, Eq, Structural)]
pub enum ManagedItemDetailType {
    Get,
    Use,
}

/// The kinds of item the server keeps count of.
#[derive(Debug, Copy, Clone, PartialEq, Eq, Structural)]
pub enum ManagedItemType {
    Catfood,
    RareTicket,
    PlatinumTicket,
    LegendTicket,
}

/// One change to a managed item.
#[derive(Debug, Clone)]
pub struct ManagedItem {
    pub amount: i32,
    pub detail_code: String,
    pub detail_created_at: u64,
    pub detail_type: ManagedItemDetailType,
    pub managed_item_type: ManagedItemType,
}

/// The codes that take an uploaded save to another device.
#[derive(Debug, Clone)]
pub struct TransferCodes {
    pub transfer_code: String,
    pub confirmation_code: String,
}

/// The text of header names and values.
pub open spec fn header_texts(h: Seq<(String, String)>) -> Seq<(Seq<char>, Seq<char>)> {
    h.map_values(|p: (String, String)| (p.0@, p.1@))
}

/// The headers of a request signed for the auth server.
pub open spec fn v1_header_texts(timestamp: u64, signature: Seq<char>) -> Seq<(Seq<char>, Seq<char>)> {
    seq![
        ("content-type"@, "application/json"@),
        ("nyanko-signature-version"@, "1"@),
        ("nyanko-signature-algorithm"@, "HMACSHA256"@),
        ("nyanko-timestamp"@, ascii_chars(digits(timestamp as nat, 10))),
        ("nyanko-signature"@, signature),
    ]
}

/// The headers of an unsigned request that carries an auth token.
pub open spec fn v2_empty_header_texts(timestamp: u64, auth_token: Seq<char>) -> Seq<(Seq<char>, Seq<char>)> {
    seq![
        ("content-type"@, "application/json"@),
        ("nyanko-timestamp"@, ascii_chars(digits(timestamp as nat, 10))),
        ("authorization"@, "Bearer "@ + auth_token),
    ]
}

/// The headers of a signed request that carries an auth token.
pub open spec fn v2_header_texts(timestamp: u64, signature: Seq<char>, auth_token: Seq<char>) -> Seq<(Seq<char>, Seq<char>)> {
    v1_header_texts(timestamp, signature).push(("authorization"@, "Bearer "@ + auth_token))
}

fn header(name: &str, value: String) -> (h: (String, String))
    ensures
        h.0@ == name@,
        h.1@ == value@,
{
    (name.to_owned(), value)
}

fn text(s: &str) -> (t: String)
    ensures
        t@ == s@,
{
    s.to_owned()
}

fn bearer(auth_token: &str) -> (t: String)
    ensures
        t@ == "Bearer "@ + auth_token@,
{
    let mut t = text("Bearer ");
    t.append(auth_token);
    t
}

/// The headers of a request for the auth server at the given time, carrying
/// the given signature.
pub fn v1_headers_signed(signature: String, timestamp: u64) -> (h: Vec<(String, String)>)
    ensures
        header_texts(h@) == v1_header_texts(timestamp, signature@),
{
    let ghost sig = signature@;
    let mut h: Vec<(String, String)> = Vec::new();
    h.push(header("content-type", text("application/json")));
    h.push(header("nyanko-signature-version", text("1")));
    h.push(header("nyanko-signature-algorithm", text("HMACSHA256")));
    h.push(header("nyanko-timestamp", decimal_string(timestamp)));
    h.push(header("nyanko-signature", signature));
    assert(header_texts(h@) =~= v1_header_texts(timestamp, sig));
    h
}

/// The headers of a request for the auth server at the given time, signed
/// (version 2, fresh random bytes) over its body. Fails only where the
/// random bytes cannot be had; otherwise the headers are those of
/// `v1_headers_signed` with the signature that `sign_v2` made.
pub fn v1_headers(inquiry_code: &str, data: &[u8], timestamp: u64) -> (res: Result<Vec<(String, String)>, RandomError>)
    ensures
        res matches Ok(h) ==> exists|r: Seq<u8>|
            r.len() == 32 && header_texts(h@) == v1_header_texts(timestamp, signature_v2(inquiry_code@, data@, r)),
{
    let signature = sign_v2(inquiry_code, data)?;
    Ok(v1_headers_signed(signature, timestamp))
}

/// The headers of an unsigned request that carries an auth token.
pub fn v2_headers_empty(auth_token: &str, timestamp: u64) -> (h: Vec<(String, String)>)
    ensures
        header_texts(h@) == v2_empty_header_texts(timestamp, auth_token@),
{
    let mut h: Vec<(String, String)> = Vec::new();
    h.push(header("content-type", text("application/json")));
    h.push(header("nyanko-timestamp", decimal_string(timestamp)));
    h.push(header("authorization", bearer(auth_token)));
    assert(header_texts(h@) =~= v2_empty_header_texts(timestamp, auth_token@));
    h
}

/// The headers of a signed request that carries an auth token, with the
/// given signature.
pub fn v2_headers_signed(signature: String, auth_token: &str, timestamp: u64) -> (h: Vec<(String, String)>)
    ensures
        header_texts(h@) == v2_header_texts(timestamp, signature@, auth_token@),
{
    let ghost sig = signature@;
    let mut h = v1_headers_signed(signature, timestamp);
    let ghost h0 = h@;
    h.push(header("authorization", bearer(auth_token)));
    assert(header_texts(h@) =~= header_texts(h0).push(("authorization"@, "Bearer "@ + auth_token@)));
    h
}

/// The headers of a signed request that carries an auth token. Fails only
/// where the random bytes cannot be had; otherwise the headers are those of
/// `v2_headers_signed` with the signature that `sign_v2` made.
pub fn v2_headers(inquiry_code: &str, auth_token: &str, data: &[u8], timestamp: u64) -> (res: Result<Vec<(String, String)>, RandomError>)
    ensures
        res matches Ok(h) ==> exists|r: Seq<u8>|
            r.len() == 32 && header_texts(h@) == v2_header_texts(
                timestamp,
                signature_v2(inquiry_code@, data@, r),
                auth_token@,
            ),
{
    let signature = sign_v2(inquiry_code, data)?;
    Ok(v2_headers_signed(signature, auth_token, timestamp))
}


/// A goal is done at once exactly when the state already holds what it is
/// for: the inquiry code, the refresh token, the password or the auth token;
/// setting up an account is never done at once.
pub proof fn lemma_done_at_once(s: AccountState, reply: AccountReply)
    ensures
        (spec_next_action(goal_known(s, AccountGoal::InquiryCode), AccountGoal::InquiryCode, 0, reply)
            == AccountAction::Done) <==> s.inquiry_code is Some,
        (spec_next_action(
            goal_known(s, AccountGoal::PasswordRefreshToken),
            AccountGoal::PasswordRefreshToken,
            0,
            reply,
        ) == AccountAction::Done) <==> s.password_refresh_token is Some,
        (spec_next_action(goal_known(s, AccountGoal::Password), AccountGoal::Password, 0, reply)
            == AccountAction::Done) <==> s.account_info.password is Some,
        (spec_next_action(goal_known(s, AccountGoal::AuthToken), AccountGoal::AuthToken, 0, reply)
            == AccountAction::Done) <==> s.account_info.auth_token is Some,
        spec_next_action(goal_known(s, AccountGoal::NewAccountSetup), AccountGoal::NewAccountSetup, 0, reply)
            != AccountAction::Done,
{
}

} // verus!
