//! What the editor keeps of an account: the game's password and auth token,
//! and the managed items recorded for the next upload.

use vstd::prelude::*;
use crate::network::password::ManagedItem;

verus! {

/// The game's credentials for an account.
#[derive(Debug, Clone)]
pub struct GameAccountInfo {
    pub password: Option<String>,
    pub auth_token: Option<String>,
}

impl Default for GameAccountInfo {
    fn default() -> (info: Self)
        ensures
            info.password is None,
            info.auth_token is None,
    {
        GameAccountInfo { password: None, auth_token: None }
    }
}

impl GameAccountInfo {
    pub fn new(password: Option<String>, auth_token: Option<String>) -> (info: Self)
        ensures
            info.password == password,
            info.auth_token == auth_token,
    {
        Self { password, auth_token }
    }
}

/// The credentials together with the managed items to report.
#[derive(Debug, Clone)]
pub struct EditorAccountInfo {
    pub account_info: GameAccountInfo,
    pub managed_items: Vec<ManagedItem>,
}

impl Default for EditorAccountInfo {
    fn default() -> (info: Self)
        ensures
            info.account_info.password is None,
            info.account_info.auth_token is None,
            info.managed_items@.len() == 0,
    {
        EditorAccountInfo { account_info: GameAccountInfo::default(), managed_items: Vec::new() }
    }
}

impl EditorAccountInfo {
    pub fn new(account_info: GameAccountInfo, managed_items: Vec<ManagedItem>) -> (info: Self)
        ensures
            info.account_info == account_info,
            info.managed_items == managed_items,
    {
        Self { account_info, managed_items }
    }

    /// Records one more managed item, after those already recorded.
    pub fn add_managed_item(&mut self, item: ManagedItem)
        ensures
            final(self).managed_items@ == old(self).managed_items@.push(item),
            final(self).account_info == old(self).account_info,
    {
        self.managed_items.push(item);
    }
}

} // verus!
