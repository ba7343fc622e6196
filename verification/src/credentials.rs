//! The Wi-Fi credentials and the API token: how stored values are accepted,
//! and the fixed-size strings the Wi-Fi driver is configured with.
use vstd::prelude::*;
use vstd::string::StringSliceAdditionalSpecFns;

verus! {

/// The namespace of the meter's settings in non-volatile storage.
pub const NVS_NAMESPACE: &'static str = "clawdmeter";
pub const SSID_KEY: &'static str = "ssid";
pub const PASS_KEY: &'static str = "pass";
pub const TOKEN_KEY: &'static str = "token";

/// Bytes read for the network name, the password and the token.
pub const SSID_READ_BYTES: usize = 64;
pub const PASS_READ_BYTES: usize = 64;
pub const TOKEN_READ_BYTES: usize = 300;

pub open spec fn ssid_present(stored: Option<&str>) -> bool {
    match stored {
        Some(s) => s@.len() > 0,
        None => false,
    }
}

/// A stored network name counts only when it is there and holds at least one
/// character; a missing or empty one means the credentials are not stored.
pub proof fn lemma_ssid_present(stored: Option<&str>)
    ensures
        stored is None ==> !ssid_present(stored),
        stored matches Some(s) ==> (ssid_present(stored) <==> s@ != Seq::<char>::empty()),
{
    if let Some(s) = stored {
        if s@.len() == 0 {
            assert(s@ =~= Seq::<char>::empty());
        }
    }
}

/// A stored network name is used only when it is there and not empty; only
/// then is the password read.
pub fn ssid_usable(stored: Option<&str>) -> (r: bool)
    ensures
        r == ssid_present(stored),
{
    match stored {
        Some(s) => !s.is_empty(),
        None => false,
    }
}

/// The stored credentials: both the network name (not empty) and the
/// password must be there.
pub fn stored_wifi(ssid: Option<&str>, pass: Option<&str>) -> (r: Option<(String, String)>)
    ensures
        r is Some <==> ssid_present(ssid) && pass is Some,
        r matches Some(c) ==> (ssid matches Some(s) && c.0@ == s@) && (pass matches Some(
            p,
        ) && c.1@ == p@),
{
    match ssid {
        Some(s) if !s.is_empty() => match pass {
            Some(p) => Some((String::from_str(s), String::from_str(p))),
            None => None,
        },
        _ => None,
    }
}

#[verifier::external_type_specification]
#[verifier::external_body]
pub struct ExHeaplessString<const N: usize>(heapless::String<N>);

/// The text held by a network-name string of the Wi-Fi configuration.
pub uninterp spec fn ssid_text(v: heapless::String<32>) -> Seq<char>;

/// The text held by a password string of the Wi-Fi configuration.
pub uninterp spec fn password_text(v: heapless::String<64>) -> Seq<char>;

/// Calls `heapless::String::<32>::try_from(&str)`, which copies the text
/// when its UTF-8 bytes fit the 32-byte capacity and fails otherwise.
#[verifier::external_body]
fn ssid_string(s: &str) -> (r: Option<heapless::String<32>>)
    ensures
        r is Some <==> s.spec_bytes().len() <= 32,
        r matches Some(h) ==> ssid_text(h) == s@,
{
    heapless::String::<32>::try_from(s).ok()
}

/// Calls `heapless::String::<64>::try_from(&str)`, which copies the text
/// when its UTF-8 bytes fit the 64-byte capacity and fails otherwise.
#[verifier::external_body]
fn password_string(s: &str) -> (r: Option<heapless::String<64>>)
    ensures
        r is Some <==> s.spec_bytes().len() <= 64,
        r matches Some(h) ==> password_text(h) == s@,
{
    heapless::String::<64>::try_from(s).ok()
}

/// Why the Wi-Fi configuration could not be made.
#[derive(PartialEq, Eq, Structural, Clone, Copy, Debug)]
pub enum WifiConfigError {
    SsidTooLong,
    PasswordTooLong,
}

impl WifiConfigError {
    pub fn message(&self) -> (m: &'static str)
        ensures
            *self == WifiConfigError::SsidTooLong ==> m@ == "SSID too long"@,
            *self == WifiConfigError::PasswordTooLong ==> m@ == "password too long"@,
    {
        match self {
            WifiConfigError::SsidTooLong => "SSID too long",
            WifiConfigError::PasswordTooLong => "password too long",
        }
    }
}

/// The network name and password as the driver takes them: at most 32 and
/// 64 bytes; the name is checked first.
pub fn client_credentials(ssid: &str, pass: &str) -> (r: Result<
    (heapless::String<32>, heapless::String<64>),
    WifiConfigError,
>)
    ensures
        ssid.spec_bytes().len() > 32 ==> r == Err::<
            (heapless::String<32>, heapless::String<64>),
            WifiConfigError,
        >(WifiConfigError::SsidTooLong),
        ssid.spec_bytes().len() <= 32 && pass.spec_bytes().len() > 64 ==> r == Err::<
            (heapless::String<32>, heapless::String<64>),
            WifiConfigError,
        >(WifiConfigError::PasswordTooLong),
        r is Ok <==> ssid.spec_bytes().len() <= 32 && pass.spec_bytes().len() <= 64,
        r matches Ok(c) ==> ssid_text(c.0) == ssid@ && password_text(c.1) == pass@,
{
    let s = match ssid_string(ssid) {
        Some(s) => s,
        None => return Err(WifiConfigError::SsidTooLong),
    };
    let p = match password_string(pass) {
        Some(p) => p,
        None => return Err(WifiConfigError::PasswordTooLong),
    };
    Ok((s, p))
}

} // verus!
