//! What the daemon does with a request, and the life of one connection.
//!
//! A connection carries one request and one response. It reads until the peer
//! has finished sending, decodes one request from what it read, lets the store
//! answer it, writes the encoded response and closes. Malformed input and
//! transport failures close the connection without a response.

use crate::model::StoreModel;
use crate::protocol::{Request, RequestModel, Response, ResponseModel};
use crate::store::SecretStore;
use vstd::prelude::*;

verus! {

/// Seconds between two rounds of the reaper.
pub const REAPER_INTERVAL_SECS: u64 = 5;

/// The reason given when an unlock attempt presents the wrong password.
pub open spec fn invalid_password() -> Seq<char> {
    "invalid password"@
}

/// The reason given when the store is locked.
pub open spec fn unauthorized() -> Seq<char> {
    "unauthorized"@
}

/// The response that `request` gets from `store` at tick `now`.
pub open spec fn response_to(store: StoreModel, request: RequestModel, now: nat) -> ResponseModel {
    match request {
        RequestModel::Unlock { password } => if password == store.password {
            ResponseModel::Success(None)
        } else {
            ResponseModel::Error(invalid_password())
        },
        RequestModel::Put { key, value } => if store.unlocked {
            ResponseModel::Success(None)
        } else {
            ResponseModel::Error(unauthorized())
        },
        RequestModel::Get { key } => if store.unlocked {
            ResponseModel::Success(store.lookup(key, now))
        } else {
            ResponseModel::Error(unauthorized())
        },
        RequestModel::Lock => ResponseModel::Success(None),
    }
}

/// The store after it has answered `request` at tick `now`.
pub open spec fn store_after(store: StoreModel, request: RequestModel, now: nat) -> StoreModel {
    match request {
        RequestModel::Unlock { password } => store.unlock(password),
        RequestModel::Put { key, value } => store.set(key, value, now),
        RequestModel::Get { key } => store.get(key, now),
        RequestModel::Lock => store.lock(),
    }
}

/// Lets `store` answer `request` at tick `now`.
pub fn handle_request_at(request: Request, store: &mut SecretStore, now: u64) -> (response:
    Response)
    ensures
        response@ == response_to(old(store)@, request@, now as nat),
        final(store)@ == store_after(old(store)@, request@, now as nat),
{
    match request {
        Request::Unlock { password } => {
            if store.unlock(password.as_str()) {
                Response::Success(None)
            } else {
                Response::Error("invalid password".to_owned())
            }
        },
        Request::Put { key, value } => {
            match store.set_at(key, value, now) {
                Ok(()) => Response::Success(None),
                Err(_) => Response::Error("unauthorized".to_owned()),
            }
        },
        Request::Get { key } => {
            match store.get_at(key.as_str(), now) {
                Ok(value) => Response::Success(value),
                Err(_) => Response::Error("unauthorized".to_owned()),
            }
        },
        Request::Lock => {
            store.lock();
            Response::Success(None)
        },
    }
}

/// Lets `store` answer `request` at the current tick of its clock.
pub fn handle_request(request: Request, store: &mut SecretStore) -> (response: Response)
    ensures
        exists|now: nat|
            {
                &&& response@ == #[trigger] response_to(old(store)@, request@, now)
                &&& final(store)@ == store_after(old(store)@, request@, now)
            },
{
    let now = store.now();
    handle_request_at(request, store, now)
}

} // verus!
