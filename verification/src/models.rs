//! What clients and servers say to each other, as far as the proxy reads it.

use std::collections::HashMap;
use vstd::prelude::*;

use crate::encryption::Password;

verus! {

/// A JSON value, which the proxy passes through without looking inside.
#[verifier::external_type_specification]
#[verifier::external_body]
pub struct ExValue(serde_json::Value);

pub struct AuthenticateRequest {
    pub username: String,
    pub password: Password,
}

impl Clone for AuthenticateRequest {
    fn clone(&self) -> (r: AuthenticateRequest)
        ensures
            r == *self,
    {
        AuthenticateRequest { username: self.username.clone(), password: self.password.clone() }
    }
}

/// What a client says about itself in its authorization header.
#[derive(Debug)]
pub struct Authorization {
    pub client: String,
    pub device: String,
    pub device_id: String,
    pub version: String,
    pub token: Option<String>,
}

impl Clone for Authorization {
    fn clone(&self) -> (r: Authorization)
        ensures
            r == *self,
    {
        let token = match &self.token {
            Some(token) => Some(token.clone()),
            None => None,
        };
        Authorization {
            client: self.client.clone(),
            device: self.device.clone(),
            device_id: self.device_id.clone(),
            version: self.version.clone(),
            token,
        }
    }
}

#[derive(Clone, Copy, Debug, PartialEq, Eq, Structural)]
pub enum SyncPlayUserAccessType {
    CreateAndJoinGroups,
    JoinGroups,
    NoAccess,
}

#[derive(Debug)]
pub struct UserPolicy {
    pub is_administrator: bool,
    pub sync_play_access: SyncPlayUserAccessType,
    pub extra: HashMap<String, serde_json::Value>,
}

/// A user as a server presents it.
#[derive(Debug)]
pub struct User {
    pub name: String,
    pub server_id: String,
    pub id: String,
    pub policy: UserPolicy,
    pub extra: HashMap<String, serde_json::Value>,
}

#[derive(Debug)]
pub struct SessionInfo {
    pub user_id: String,
    pub user_name: String,
    pub server_id: String,
    pub extra: HashMap<String, serde_json::Value>,
}

/// A server's answer to a login.
#[derive(Debug)]
pub struct AuthenticateResponse {
    pub user: User,
    pub session_info: SessionInfo,
    pub access_token: String,
    pub server_id: String,
}

} // verus!
