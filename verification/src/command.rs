//! Command envelopes for the web and remote API: what is sent to a module, with the
//! length and CRC-32 of its payload and a time-to-live.

use crate::digest::{crc32, crc32_of};
use crate::error::SterngateError;
use crate::profile::{find_parameter, first_answering, ParameterLayout};
use crate::text::{decimal, hex_padded, push_decimal, push_hex_padded, push_str};
use vstd::prelude::*;

verus! {

/// Time-to-live given to a new envelope, in milliseconds.
pub const DEFAULT_TTL_MS: u64 = 10_000;

/// A command for a vehicle module, with integrity data for its payload.
#[derive(Debug, Clone, PartialEq, Eq)]
pub struct CommandEnvelope {
    pub command_id: String,
    pub timestamp_ms: u64,
    pub ttl_ms: u64,
    pub idempotency_key: String,
    pub target_module: String,
    pub service: u8,
    pub did: Option<u16>,
    pub payload_len: usize,
    pub payload_crc32: u32,
    pub payload: Vec<u8>,
}

/// Outcome of checking a command.
#[derive(Debug, Clone)]
pub struct CommandValidationReport {
    pub is_valid: bool,
    pub command_id: String,
    pub length_verified: bool,
    pub crc32_verified: bool,
    pub freshness_verified: bool,
    pub schema_verified: bool,
    pub error: Option<String>,
}

/// Whether `s` has the hyphenated UUID layout: 36 characters with hyphens at 8, 13,
/// 18 and 23.
pub open spec fn is_hyphenated_uuid(s: Seq<char>) -> bool {
    &&& s.len() == 36
    &&& s[8] == '-'
    &&& s[13] == '-'
    &&& s[18] == '-'
    &&& s[23] == '-'
}

/// `uuid::Uuid::new_v4`, rendered by its `Display` impl: a random version-4 UUID in
/// hyphenated form. Only the layout is stated; the digits are random.
#[verifier::external_body]
fn random_uuid() -> (r: String)
    ensures
        is_hyphenated_uuid(r@),
{
    uuid::Uuid::new_v4().to_string()
}

/// `chrono::Utc::now().timestamp_millis()`: the current time in milliseconds since the
/// Unix epoch. `Utc::now` measures the system time since the epoch (and panics on a
/// clock set before it), so the value is not negative; nothing else is stated of it.
#[verifier::external_body]
fn now_unix_millis() -> (r: i64)
    ensures
        r >= 0,
{
    chrono::Utc::now().timestamp_millis()
}

/// The reason given for a payload whose length differs from the declared one.
pub open spec fn length_mismatch_reason(declared: nat, received: nat) -> Seq<char> {
    "Payload length mismatch: declared "@ + decimal(declared) + " bytes, but received "@
        + decimal(received)
        + " bytes. Packet may have been truncated over network."@
}

/// A CRC-32 as shown in errors: `0x` and eight upper-case hexadecimal digits.
pub open spec fn crc_text(x: u32) -> Seq<char> {
    "0x"@ + hex_padded(x as nat, 8)
}

/// What checking a command against the profile's parameters gives: a command for a DID
/// that a parameter answers to (as `0x` and four upper-case digits) must target that
/// parameter's module and carry exactly its number of bytes.
pub open spec fn schema_verdict(e: CommandEnvelope, params: Seq<ParameterLayout>, r: Result<(), SterngateError>) -> bool {
    match e.did {
        None => r is Ok,
        Some(did) => {
            let key = "0x"@ + hex_padded(did as nat, 4);
            match first_answering(params, key) {
                None => r is Ok,
                Some(i) => {
                    let p = params[i];
                    if p.module@ != e.target_module@ {
                        r matches Err(SterngateError::ProfileError(m)) && m@ == "DID "@ + key
                            + " belongs to module '"@ + p.module@ + "', not '"@ + e.target_module@ + "'"@
                    } else if e.payload@.len() != p.length {
                        r matches Err(SterngateError::ParameterParseError { name, reason }) && name@ == p.name@
                            && reason@ == "DID "@ + key + " expects exactly "@ + decimal(p.length as nat)
                            + " bytes according to profile, but payload contains "@ + decimal(e.payload@.len())
                            + " bytes."@
                    } else {
                        r is Ok
                    }
                },
            }
        },
    }
}

/// What checking an envelope's integrity gives: the length first, then the CRC-32.
pub open spec fn integrity_verdict(e: CommandEnvelope, r: Result<(), SterngateError>) -> bool {
    if e.payload@.len() != e.payload_len {
        r matches Err(SterngateError::ParameterParseError { name, reason }) && name@ == "Command_"@
            + e.command_id@ && reason@ == length_mismatch_reason(
            e.payload_len as nat,
            e.payload@.len(),
        )
    } else if crc32_of(e.payload@) != e.payload_crc32 {
        r matches Err(SterngateError::ChecksumMismatch { expected, calculated }) && expected@
            == crc_text(e.payload_crc32) && calculated@ == crc_text(crc32_of(e.payload@))
    } else {
        r is Ok
    }
}

impl CommandEnvelope {
    /// A new envelope for `target_module`: random command ID and idempotency key, the
    /// current time (milliseconds since the Unix epoch, which fit in an `i64`), the default
    /// time-to-live, and the payload's length and CRC-32.
    pub fn new(target_module: &str, service: u8, did: Option<u16>, payload: Vec<u8>) -> (r: Self)
        ensures
            r.target_module@ == target_module@,
            r.service == service,
            r.did == did,
            r.payload@ == payload@,
            r.payload_len == payload@.len(),
            r.payload_crc32 == crc32_of(payload@),
            r.ttl_ms == DEFAULT_TTL_MS,
            r.timestamp_ms <= i64::MAX,
            is_hyphenated_uuid(r.command_id@),
            is_hyphenated_uuid(r.idempotency_key@),
    {
        let payload_len = payload.len();
        let payload_crc32 = crc32(payload.as_slice());
        let now_ms = now_unix_millis() as u64;
        let mut module = String::new();
        push_str(&mut module, target_module);
        CommandEnvelope {
            command_id: random_uuid(),
            timestamp_ms: now_ms,
            ttl_ms: DEFAULT_TTL_MS,
            idempotency_key: random_uuid(),
            target_module: module,
            service,
            did,
            payload_len,
            payload_crc32,
            payload,
        }
    }

    /// The envelope with time-to-live `ttl_ms`.
    pub fn with_ttl(self, ttl_ms: u64) -> (r: Self)
        ensures
            r == (CommandEnvelope { ttl_ms, ..self }),
    {
        let mut e = self;
        e.ttl_ms = ttl_ms;
        e
    }

    /// The envelope with idempotency key `key`.
    pub fn with_idempotency_key(self, key: &str) -> (r: Self)
        ensures
            r.idempotency_key@ == key@,
            r == (CommandEnvelope { idempotency_key: r.idempotency_key, ..self }),
    {
        let mut e = self;
        let mut k = String::new();
        push_str(&mut k, key);
        e.idempotency_key = k;
        e
    }

    /// Checks that the payload arrived complete (declared length) and uncorrupted
    /// (IEEE CRC-32).
    pub fn validate_integrity(&self) -> (r: Result<(), SterngateError>)
        ensures
            integrity_verdict(*self, r),
    {
        if self.payload.len() != self.payload_len {
            let mut name = String::new();
            push_str(&mut name, "Command_");
            push_str(&mut name, self.command_id.as_str());
            let mut reason = String::new();
            push_str(&mut reason, "Payload length mismatch: declared ");
            push_decimal(&mut reason, self.payload_len as u64);
            push_str(&mut reason, " bytes, but received ");
            push_decimal(&mut reason, self.payload.len() as u64);
            push_str(&mut reason, " bytes. Packet may have been truncated over network.");
            return Err(SterngateError::ParameterParseError { name, reason });
        }
        let computed = crc32(self.payload.as_slice());
        if computed != self.payload_crc32 {
            let mut expected = String::new();
            push_str(&mut expected, "0x");
            push_hex_padded(&mut expected, self.payload_crc32 as u64, 8);
            let mut calculated = String::new();
            push_str(&mut calculated, "0x");
            push_hex_padded(&mut calculated, computed as u64, 8);
            return Err(SterngateError::ChecksumMismatch { expected, calculated });
        }
        Ok(())
    }

    /// Checks the command against the profile's parameters (`schema_verdict`).
    pub fn validate_profile_schema(&self, params: &[ParameterLayout]) -> (r: Result<(), SterngateError>)
        ensures
            schema_verdict(*self, params@, r),
    {
        if let Some(did) = self.did {
            let mut key = String::new();
            push_str(&mut key, "0x");
            push_hex_padded(&mut key, did as u64, 4);
            proof {
                assert(key@ =~= "0x"@ + hex_padded(did as nat, 4));
            }
            if let Some(i) = find_parameter(params, key.as_str()) {
                let p = &params[i];
                if !p.module.eq(&self.target_module) {
                    let mut m = String::new();
                    push_str(&mut m, "DID ");
                    push_str(&mut m, key.as_str());
                    push_str(&mut m, " belongs to module '");
                    push_str(&mut m, p.module.as_str());
                    push_str(&mut m, "', not '");
                    push_str(&mut m, self.target_module.as_str());
                    push_str(&mut m, "'");
                    proof {
                        assert(m@ =~= "DID "@ + key@ + " belongs to module '"@ + p.module@ + "', not '"@
                            + self.target_module@ + "'"@);
                    }
                    return Err(SterngateError::ProfileError(m));
                }
                if self.payload.len() != p.length {
                    let mut name = String::new();
                    push_str(&mut name, p.name.as_str());
                    let mut reason = String::new();
                    push_str(&mut reason, "DID ");
                    push_str(&mut reason, key.as_str());
                    push_str(&mut reason, " expects exactly ");
                    push_decimal(&mut reason, p.length as u64);
                    push_str(&mut reason, " bytes according to profile, but payload contains ");
                    push_decimal(&mut reason, self.payload.len() as u64);
                    push_str(&mut reason, " bytes.");
                    proof {
                        assert(reason@ =~= "DID "@ + key@ + " expects exactly "@ + decimal(p.length as nat)
                            + " bytes according to profile, but payload contains "@ + decimal(self.payload@.len())
                            + " bytes."@);
                    }
                    return Err(SterngateError::ParameterParseError { name, reason });
                }
            }
        }
        Ok(())
    }

    /// Whether the command is stale at `current_time_ms`: later than its timestamp plus
    /// its time-to-live.
    pub fn is_expired(&self, current_time_ms: u64) -> (r: bool)
        requires
            self.timestamp_ms + self.ttl_ms <= u64::MAX,
        ensures
            r == (current_time_ms > self.timestamp_ms + self.ttl_ms),
    {
        current_time_ms > self.timestamp_ms + self.ttl_ms
    }
}

/// An envelope whose declared length and CRC-32 are those of its payload, as `new`
/// builds it, passes the integrity check, and nothing else does.
pub proof fn lemma_untampered_envelope_passes(e: CommandEnvelope, r: Result<(), SterngateError>)
    ensures
        (e.payload_len == e.payload@.len() && e.payload_crc32 == crc32_of(e.payload@)) ==> (integrity_verdict(e, r) <==> r is Ok),
        !(e.payload_len == e.payload@.len() && e.payload_crc32 == crc32_of(e.payload@)) ==> (integrity_verdict(e, r) ==> r is Err),
{
}

} // verus!
