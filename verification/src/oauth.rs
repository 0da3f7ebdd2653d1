//! The device-authorization flow's fixed pieces: the token record and the
//! request lines sent to the authorization service. The HTTP exchange and
//! the operator prompt run outside.

use vstd::prelude::*;

verus! {

/// The token material the authorization service returns.
pub struct TokenInfo {
    pub token_type: String,
    pub access_token: String,
    pub expires_in: i64,
    pub refresh_token: String,
}

/// The authorization service's base address.
pub fn oauth_base_url() -> (r: &'static str)
    ensures
        r@ == "https://oauth.yandex.ru"@,
{
    "https://oauth.yandex.ru"
}

/// The address the operator visits to authorize this client.
pub fn make_reg_user_url(client_id: &str) -> (r: String)
    ensures
        r@ == "https://oauth.yandex.ru/authorize?response_type=code&client_id="@ + client_id@,
{
    let mut u = "https://oauth.yandex.ru/authorize?response_type=code&client_id=".to_owned();
    u.append(client_id);
    u
}

/// The address a confirmation code is exchanged at for a token.
pub fn token_url() -> (r: String)
    ensures
        r@ == "https://oauth.yandex.ru"@ + "/token"@,
{
    let mut u = oauth_base_url().to_owned();
    u.append("/token");
    u
}

} // verus!
