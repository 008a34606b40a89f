//! Application settings and the runtime environment switch.
//!
//! Loading settings from files and process variables is I/O and lives
//! with the embedding program; this module holds the settings shapes and
//! the environment-name logic that the session policy depends on.

use vstd::prelude::*;
use vstd::string::StringSliceAdditionalSpecFns;

verus! {

/// Where the process listens and how verbosely it logs.
#[derive(Clone, Debug)]
pub struct ApplicationSettings {
    pub host: String,
    pub port: u16,
    pub rust_log: String,
}

/// The single symmetric signing secret, loaded once at process start.
#[derive(Clone, Debug)]
pub struct SecuritySettings {
    pub secret_key: String,
}

/// The possible runtime environments.
#[derive(Clone, Copy, Debug, PartialEq, Eq, Structural)]
pub enum Environment {
    Local,
    Development,
    Production,
}

/// ASCII lowercasing of one byte.
pub open spec fn lower_byte(b: u8) -> u8 {
    if 0x41 <= b <= 0x5A {
        (b + 0x20) as u8
    } else {
        b
    }
}

/// ASCII lowercasing of a byte sequence.
pub open spec fn lower_bytes(s: Seq<u8>) -> Seq<u8> {
    s.map_values(|b: u8| lower_byte(b))
}

/// `local` as bytes.
pub open spec fn lit_local() -> Seq<u8> {
    seq![0x6Cu8, 0x6F, 0x63, 0x61, 0x6C]
}

/// `development` as bytes.
pub open spec fn lit_development() -> Seq<u8> {
    seq![0x64u8, 0x65, 0x76, 0x65, 0x6C, 0x6F, 0x70, 0x6D, 0x65, 0x6E, 0x74]
}

/// `production` as bytes.
pub open spec fn lit_production() -> Seq<u8> {
    seq![0x70u8, 0x72, 0x6F, 0x64, 0x75, 0x63, 0x74, 0x69, 0x6F, 0x6E]
}

/// ASCII lowercasing of a string's bytes.
fn to_lower_bytes(s: &str) -> (r: Vec<u8>)
    ensures
        r@ == lower_bytes(s.spec_bytes()),
{
    let bytes = s.as_bytes();
    let mut r: Vec<u8> = Vec::new();
    let n = bytes.len();
    let mut k: usize = 0;
    while k < n
        invariant
            n == bytes@.len(),
            k <= n,
            r@.len() == k,
            forall|m: int| 0 <= m < k ==> r@[m] == lower_byte(#[trigger] bytes@[m]),
        decreases n - k,
    {
        let b = bytes[k];
        if 0x41 <= b && b <= 0x5A {
            r.push(b + 0x20);
        } else {
            r.push(b);
        }
        k = k + 1;
    }
    proof {
        assert(r@ =~= lower_bytes(bytes@));
    }
    r
}

/// Byte-for-byte comparison against a short literal given as a slice of
/// plain bytes.
fn bytes_match(v: &Vec<u8>, lit: &[u8]) -> (r: bool)
    ensures
        r == (v@ == lit@),
{
    if v.len() != lit.len() {
        return false;
    }
    let n = v.len();
    let mut k: usize = 0;
    while k < n
        invariant
            n == v@.len() == lit@.len(),
            k <= n,
            forall|m: int| 0 <= m < k ==> v@[m] == lit@[m],
        decreases n - k,
    {
        if v[k] != lit[k] {
            return false;
        }
        k = k + 1;
    }
    proof {
        assert(v@ =~= lit@);
    }
    true
}

impl Environment {
    /// The canonical name of the environment.
    pub fn as_str(&self) -> (s: &'static str)
        ensures
            self is Local ==> s@ == "local"@,
            self is Development ==> s@ == "development"@,
            self is Production ==> s@ == "production"@,
    {
        match self {
            Environment::Local => "local",
            Environment::Development => "development",
            Environment::Production => "production",
        }
    }

    /// Parses an environment name, ASCII case-insensitively.  Exactly
    /// the three known names are accepted, each to its own variant;
    /// anything else is returned as an error message naming the
    /// rejected value.
    pub fn try_from_name(s: &str) -> (r: Result<Environment, String>)
        ensures
            r == Ok::<Environment, String>(Environment::Local) <==> lower_bytes(
                s.spec_bytes(),
            ) == lit_local(),
            r == Ok::<Environment, String>(Environment::Development) <==> lower_bytes(
                s.spec_bytes(),
            ) == lit_development(),
            r == Ok::<Environment, String>(Environment::Production) <==> lower_bytes(
                s.spec_bytes(),
            ) == lit_production(),
            r matches Err(m) ==> m@ == s@
                + " is not a supported environment. Use either `local`, `development`, or `production`."@,
    {
        let lower = to_lower_bytes(s);
        let local_lit: [u8; 5] = [0x6C, 0x6F, 0x63, 0x61, 0x6C];
        let development_lit: [u8; 11] = [
            0x64,
            0x65,
            0x76,
            0x65,
            0x6C,
            0x6F,
            0x70,
            0x6D,
            0x65,
            0x6E,
            0x74,
        ];
        let production_lit: [u8; 10] = [0x70, 0x72, 0x6F, 0x64, 0x75, 0x63, 0x74, 0x69, 0x6F, 0x6E];
        proof {
            assert(local_lit@ =~= lit_local());
            assert(development_lit@ =~= lit_development());
            assert(production_lit@ =~= lit_production());
        }
        if bytes_match(&lower, local_lit.as_slice()) {
            Ok(Environment::Local)
        } else if bytes_match(&lower, development_lit.as_slice()) {
            Ok(Environment::Development)
        } else if bytes_match(&lower, production_lit.as_slice()) {
            Ok(Environment::Production)
        } else {
            let mut m = s.to_owned();
            m.append(
                " is not a supported environment. Use either `local`, `development`, or `production`.",
            );
            Err(m)
        }
    }
}

} // verus!
