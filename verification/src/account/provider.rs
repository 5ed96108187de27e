//! An upstream account, as far as tickets and scheduling look at it.

use crate::text::{clone_optional};
use vstd::prelude::*;

verus! {

/// The name of an account inside the gateway.
#[derive(Debug, PartialEq, Eq)]
pub struct ProviderAccountId {
    pub text: String,
}

impl Clone for ProviderAccountId {
    fn clone(&self) -> (r: ProviderAccountId)
        ensures
            r == *self,
    {
        ProviderAccountId { text: self.text.clone() }
    }
}

impl View for ProviderAccountId {
    type V = Seq<char>;

    open spec fn view(&self) -> Seq<char> {
        self.text@
    }
}

impl ProviderAccountId {
    pub fn new(text: &str) -> (r: ProviderAccountId)
        ensures
            r@ == text@,
    {
        ProviderAccountId { text: text.to_owned() }
    }

    pub fn as_str(&self) -> (r: &str)
        ensures
            r@ == self@,
    {
        self.text.as_str()
    }
}

/// An account and what identifies it upstream.
#[derive(Debug)]
pub struct ProviderAccount {
    pub id: ProviderAccountId,
    pub name: String,
    pub upstream_account_id: Option<String>,
    pub upstream_user_id: Option<String>,
    pub authentication_kind: String,
    pub enabled: bool,
}

impl Clone for ProviderAccount {
    fn clone(&self) -> (r: ProviderAccount)
        ensures
            r == *self,
    {
        ProviderAccount {
            id: self.id.clone(),
            name: self.name.clone(),
            upstream_account_id: clone_optional(&self.upstream_account_id),
            upstream_user_id: clone_optional(&self.upstream_user_id),
            authentication_kind: self.authentication_kind.clone(),
            enabled: self.enabled,
        }
    }
}

impl ProviderAccount {
    pub fn id(&self) -> (r: &ProviderAccountId)
        ensures
            *r == self.id,
    {
        &self.id
    }

    pub fn upstream_account_id(&self) -> (r: Option<String>)
        ensures
            r == self.upstream_account_id,
    {
        clone_optional(&self.upstream_account_id)
    }

    pub fn upstream_user_id(&self) -> (r: Option<String>)
        ensures
            r == self.upstream_user_id,
    {
        clone_optional(&self.upstream_user_id)
    }

    pub fn authentication_kind(&self) -> (r: &str)
        ensures
            r@ == self.authentication_kind@,
    {
        self.authentication_kind.as_str()
    }
}

} // verus!
