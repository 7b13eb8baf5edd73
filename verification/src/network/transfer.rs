//! Taking a save from the servers with a transfer code: the client
//! description sent along, the nonce, and the reading of the reply.

use vstd::prelude::*;
use crate::country_code::CountryCode;
use crate::game_version::GameVersion;
use crate::network::account_info::GameAccountInfo;
use crate::network::password::opt_view;
use crate::network::signature::{random_bytes, RandomError};
use crate::text::{ascii_chars, digits, lower_hex_string};

verus! {

/// A region as the servers name it.
#[derive(Debug, Copy, Clone, PartialEq, Eq, Structural)]
pub enum ClientCountryCode {
    Ja,
    En,
    Kr,
    Tw,
}

/// The server's name of a region.
pub open spec fn client_cc(cc: CountryCode) -> ClientCountryCode {
    match cc {
        CountryCode::Jp => ClientCountryCode::Ja,
        CountryCode::En => ClientCountryCode::En,
        CountryCode::Kr => ClientCountryCode::Kr,
        CountryCode::Tw => ClientCountryCode::Tw,
    }
}

impl From<CountryCode> for ClientCountryCode {
    fn from(value: CountryCode) -> (c: Self) {
        match value {
            CountryCode::Jp => Self::Ja,
            CountryCode::En => Self::En,
            CountryCode::Kr => Self::Kr,
            CountryCode::Tw => Self::Tw,
        }
    }
}

impl vstd::std_specs::convert::FromSpecImpl<CountryCode> for ClientCountryCode {
    open spec fn obeys_from_spec() -> bool {
        true
    }

    open spec fn from_spec(v: CountryCode) -> ClientCountryCode {
        client_cc(v)
    }
}

/// The game the requests claim to come from.
#[derive(Debug, Clone, Copy)]
pub struct Client {
    pub country_code: ClientCountryCode,
    pub version: GameVersion,
}

/// The device the requests claim to come from.
#[derive(Debug, Clone)]
pub struct Device {
    pub model: String,
}

/// The operating system the requests claim to come from.
#[derive(Debug, Clone)]
pub struct Os {
    pub os_type: String,
    pub version: String,
}

/// The description of the client sent with a request.
#[derive(Debug, Clone)]
pub struct ClientInfo {
    pub client: Client,
    pub device: Device,
    pub os: Os,
}

impl Default for ClientInfo {
    fn default() -> (c: Self)
        ensures
            c.client.country_code == ClientCountryCode::Ja,
            c.client.version.0 == 0,
            c.device.model@ == "SM-G955F"@,
            c.os.os_type@ == "android"@,
            c.os.version@ == "9"@,
    {
        Self::new(CountryCode::default(), GameVersion::default())
    }
}

impl ClientInfo {
    /// A client of the given region and version, on the phone the editor
    /// claims to be (an SM-G955F on Android 9).
    pub fn new(cc: CountryCode, gv: GameVersion) -> (c: Self)
        ensures
            c.client.country_code == client_cc(cc),
            c.client.version == gv,
            c.device.model@ == "SM-G955F"@,
            c.os.os_type@ == "android"@,
            c.os.version@ == "9"@,
    {
        Self {
            client: Client { country_code: ClientCountryCode::from(cc), version: gv },
            device: Device { model: "SM-G955F".to_owned() },
            os: Os { os_type: "android".to_owned(), version: "9".to_owned() },
        }
    }

    pub fn with_cc(self, cc: CountryCode) -> (c: Self)
        ensures
            c.client.country_code == client_cc(cc),
            c.client.version == self.client.version,
            c.device == self.device,
            c.os == self.os,
    {
        let mut s = self;
        s.client.country_code = ClientCountryCode::from(cc);
        s
    }

    pub fn with_gv(self, gv: GameVersion) -> (c: Self)
        ensures
            c.client.country_code == self.client.country_code,
            c.client.version == gv,
            c.device == self.device,
            c.os == self.os,
    {
        let mut s = self;
        s.client.version = gv;
        s
    }

    pub fn with_device(self, device: Device) -> (c: Self)
        ensures
            c.client == self.client,
            c.device == device,
            c.os == self.os,
    {
        let mut s = self;
        s.device = device;
        s
    }

    /// Takes the device where one is given.
    pub fn with_device_maybe(self, device: Option<Device>) -> (c: Self)
        ensures
            c.client == self.client,
            c.device == match device {
                Some(d) => d,
                None => self.device,
            },
            c.os == self.os,
    {
        match device {
            Some(d) => self.with_device(d),
            None => self,
        }
    }

    pub fn with_os(self, os: Os) -> (c: Self)
        ensures
            c.client == self.client,
            c.device == self.device,
            c.os == os,
    {
        let mut s = self;
        s.os = os;
        s
    }

    /// Takes the operating system where one is given.
    pub fn with_os_maybe(self, os: Option<Os>) -> (c: Self)
        ensures
            c.client == self.client,
            c.device == self.device,
            c.os == match os {
                Some(o) => o,
                None => self.os,
            },
    {
        match os {
            Some(o) => self.with_os(o),
            None => self,
        }
    }
}

/// `u128::from_ne_bytes` on 16 bytes: the number whose bytes in the
/// machine's order these are. Which number that is depends on the machine, so
/// nothing is stated.
#[verifier::external_body]
fn u128_from_ne_bytes(bytes: &[u8]) -> (v: u128)
    requires
        bytes@.len() == 16,
{
    let array: [u8; 16] = bytes.try_into().expect("sixteen bytes");
    u128::from_ne_bytes(array)
}

/// A nonce: a random 128-bit number as lowercase hex without leading zeros.
pub fn gen_nonce() -> (res: Result<String, RandomError>)
    ensures
        res matches Ok(s) ==> exists|v: u128| s@ == ascii_chars(digits(v as nat, 16)),
{
    let random = random_bytes(16)?;
    let value = u128_from_ne_bytes(random.as_slice());
    let s = lower_hex_string(value);
    assert(s@ == ascii_chars(digits(value as nat, 16)));
    Ok(s)
}

/// The body that asks for a save by its codes.
#[derive(Debug, Clone)]
pub struct ReceptionPayload {
    pub client_info: ClientInfo,
    pub nonce: String,
    pub pin: String,
}

impl ReceptionPayload {
    /// The request for the client, with a fresh nonce and the confirmation
    /// code as its pin.
    pub fn new(client_info: ClientInfo, confirmation_code: String) -> (res: Result<Self, RandomError>)
        ensures
            res matches Ok(p) ==> {
                &&& p.client_info == client_info
                &&& p.pin == confirmation_code
                &&& exists|v: u128| p.nonce@ == ascii_chars(digits(v as nat, 16))
            },
    {
        let nonce = gen_nonce()?;
        Ok(Self { client_info, nonce, pin: confirmation_code })
    }
}

/// What taking a save gives: the save, the account's password and the token
/// that renews it.
#[derive(Debug, Clone)]
pub struct FromCodesResponse {
    pub save_data: Vec<u8>,
    pub account_info: GameAccountInfo,
    pub password_refresh_token: Option<String>,
}

/// The content type of a reply that carries a save.
pub open spec fn octet_stream() -> Seq<u8> {
    seq![
        0x61u8, 0x70, 0x70, 0x6c, 0x69, 0x63, 0x61, 0x74, 0x69, 0x6f, 0x6e, 0x2f, 0x6f, 0x63, 0x74,
        0x65, 0x74, 0x2d, 0x73, 0x74, 0x72, 0x65, 0x61, 0x6d,
    ]
}

fn is_octet_stream(content_type: &[u8]) -> (b: bool)
    ensures
        b == (content_type@ == octet_stream()),
{
    let expected: [u8; 24] = [
        0x61, 0x70, 0x70, 0x6c, 0x69, 0x63, 0x61, 0x74, 0x69, 0x6f, 0x6e, 0x2f, 0x6f, 0x63, 0x74,
        0x65, 0x74, 0x2d, 0x73, 0x74, 0x72, 0x65, 0x61, 0x6d,
    ];
    assert(expected@ =~= octet_stream());
    if content_type.len() != 24 {
        return false;
    }
    let mut i: usize = 0;
    while i < 24
        invariant
            content_type@.len() == 24,
            expected@ == octet_stream(),
            i <= 24,
            forall|j: int| 0 <= j < i ==> content_type@[j] == expected@[j],
        decreases 24 - i,
    {
        if content_type[i] != expected[i] {
            return false;
        }
        i = i + 1;
    }
    assert(content_type@ =~= octet_stream());
    true
}

/// Whether a reply's content type says that it carries a save.
pub fn carries_save(content_type: Option<&[u8]>) -> (b: bool)
    ensures
        b == (content_type matches Some(c) && c@ == octet_stream()),
{
    match content_type {
        Some(c) => is_octet_stream(c),
        None => false,
    }
}

/// Reads the reply to a request for a save: a reply whose content type is
/// not `application/octet-stream` means that the codes were wrong (`None`);
/// otherwise its body is the save, and its password and refresh token headers
/// are kept.
pub fn reception_response(
    content_type: Option<&[u8]>,
    password_refresh_token: Option<String>,
    password: Option<String>,
    body: Vec<u8>,
) -> (res: Option<FromCodesResponse>)
    ensures
        res is Some <==> (content_type matches Some(c) && c@ == octet_stream()),
        res matches Some(r) ==> {
            &&& r.save_data@ == body@
            &&& r.account_info.password == password
            &&& r.account_info.auth_token is None
            &&& r.password_refresh_token == password_refresh_token
        },
{
    match content_type {
        Some(c) => {
            if !is_octet_stream(c) {
                return None;
            }
        },
        None => {
            return None;
        },
    }
    Some(FromCodesResponse {
        save_data: body,
        account_info: GameAccountInfo { password, auth_token: None },
        password_refresh_token,
    })
}

} // verus!
