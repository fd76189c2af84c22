//! What is sent to a registry as authorization.

use vstd::prelude::*;

verus! {

/// The two schemes of authorization.
#[derive(Clone, Copy, Debug, PartialEq, Eq, Structural)]
pub enum TokenType {
    Basic,
    Bearer,
}

impl TokenType {
    /// The name of the scheme.
    pub open spec fn name(self) -> Seq<char> {
        match self {
            TokenType::Basic => "Basic"@,
            TokenType::Bearer => "Bearer"@,
        }
    }
}

/// A token and the scheme under which it is sent.
#[derive(Debug, PartialEq, Eq)]
pub struct AuthToken {
    token_type: TokenType,
    value: String,
}

impl AuthToken {
    /// The scheme of the token.
    pub closed spec fn scheme(self) -> TokenType {
        self.token_type
    }

    /// The text of the token.
    pub closed spec fn text(self) -> Seq<char> {
        self.value@
    }

    /// A token that is sent under the scheme `Basic`.
    pub fn from_basic(token: &str) -> (r: Self)
        ensures
            r.scheme() == TokenType::Basic,
            r.text() == token@,
    {
        AuthToken { token_type: TokenType::Basic, value: token.to_owned() }
    }

    /// A token that is sent under the scheme `Bearer`.
    pub fn from_bearer(token: &str) -> (r: Self)
        ensures
            r.scheme() == TokenType::Bearer,
            r.text() == token@,
    {
        AuthToken { token_type: TokenType::Bearer, value: token.to_owned() }
    }

    /// The name of the scheme of the token.
    pub fn get_type(&self) -> (r: &'static str)
        ensures
            r@ == self.scheme().name(),
    {
        match &self.token_type {
            TokenType::Basic => "Basic",
            TokenType::Bearer => "Bearer",
        }
    }

    /// The text of the token.
    pub fn get_value(&self) -> (r: &str)
        ensures
            r@ == self.text(),
    {
        self.value.as_str()
    }

    /// A copy of the token.
    pub fn duplicate(&self) -> (r: Self)
        ensures
            r.scheme() == self.scheme(),
            r.text() == self.text(),
    {
        AuthToken { token_type: self.token_type, value: self.value.clone() }
    }
}

} // verus!
