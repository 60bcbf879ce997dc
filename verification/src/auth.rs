//! The authorization gate. A registration is admitted when its timestamp
//! lies within the replay window around the current time and its signature
//! verifies: in open mode (empty allow-list) under the key the request
//! itself carries, otherwise under one of the configured keys — the
//! client-asserted signer is never trusted on its own.

use vstd::prelude::*;
use vstd::string::StrSliceExecFns;

use crate::codec::registration_encoding;
use crate::codec::registration_signing_bytes;
use crate::crypto::bytes_sig_valid;
use crate::crypto::check_key_b58;
use crate::crypto::is_key_b58;
use crate::crypto::key_bytes_b58;
use crate::crypto::key_bytes_safe;
use crate::crypto::key_bytes_safe_check;
use crate::crypto::key_bytes_to_b58;
use crate::crypto::key_sig_valid;
use crate::crypto::verify_with_key_b58;
use crate::crypto::verify_with_key_bytes;

verus! {

/// Half-width of the replay window, in milliseconds: a registration's
/// timestamp may lag or lead the current time by at most this much.
pub const REPLAY_WINDOW_MILLIS: u64 = 120000;

/// A registration handshake, as plain values: the region code, the
/// timestamp in milliseconds since the epoch, the signer's public key in
/// binary form, and the detached signature.
pub struct RegistrationRequest {
    pub region: u32,
    pub timestamp: u64,
    pub signer: Vec<u8>,
    pub signature: Vec<u8>,
}

impl RegistrationRequest {
    /// The byte form the signature covers: the request serialized with the
    /// signature field cleared.
    pub open spec fn spec_signing_bytes(self) -> Seq<u8> {
        registration_encoding(self.region, self.timestamp, self.signer@)
    }

    /// Serialize this request the way its signature covers it.
    pub fn signing_bytes(&self) -> (out: Vec<u8>)
        ensures
            out@ == self.spec_signing_bytes(),
    {
        registration_signing_bytes(self.region, self.timestamp, &self.signer)
    }
}

/// Why a registration was refused. Each value is recoverable by the remote
/// party; none stops the process.
#[derive(Clone, Copy, Debug, PartialEq, Eq, Structural)]
pub enum AuthError {
    /// The timestamp lags the current time by more than the replay window.
    TimestampTooOld,
    /// The timestamp leads the current time by more than the replay window.
    TimestampTooNew,
    /// The signature does not verify under the key the request carries.
    SignatureInvalid,
    /// No configured key verifies the signature.
    UnauthorizedSigner,
}

impl AuthError {
    /// A short human-readable account of the refusal.
    pub fn describe(&self) -> (s: &'static str)
        ensures
            *self == AuthError::TimestampTooOld ==> s@ == "timestamp too far in the past"@,
            *self == AuthError::TimestampTooNew ==> s@ == "timestamp too far in the future"@,
            *self == AuthError::SignatureInvalid ==> s@ == "signature invalid"@,
            *self == AuthError::UnauthorizedSigner ==> s@ == "no keys matched"@,
    {
        match self {
            AuthError::TimestampTooOld => "timestamp too far in the past",
            AuthError::TimestampTooNew => "timestamp too far in the future",
            AuthError::SignatureInvalid => "signature invalid",
            AuthError::UnauthorizedSigner => "no keys matched",
        }
    }
}

/// Whether `timestamp` lies within the replay window around `now`.
pub open spec fn timestamp_in_window(timestamp: u64, now: u64) -> bool {
    &&& now - timestamp <= REPLAY_WINDOW_MILLIS
    &&& timestamp - now <= REPLAY_WINDOW_MILLIS
}

/// The identity of the first configured key that verifies the signature, in
/// allow-list order.
pub open spec fn scan_keys(keys: Seq<Seq<char>>, msg: Seq<u8>, sig: Seq<u8>) -> Option<Seq<char>>
    decreases keys.len(),
{
    if keys.len() == 0 {
        None
    } else if key_sig_valid(keys[0], msg, sig) {
        Some(keys[0])
    } else {
        scan_keys(keys.drop_first(), msg, sig)
    }
}

/// The whole admission decision as a function of the allow-list, the
/// request and the current time.
pub open spec fn admit_spec(keys: Seq<Seq<char>>, req: RegistrationRequest, now: u64) -> Result<
    Seq<char>,
    AuthError,
> {
    if now - req.timestamp > REPLAY_WINDOW_MILLIS {
        Err(AuthError::TimestampTooOld)
    } else if req.timestamp - now > REPLAY_WINDOW_MILLIS {
        Err(AuthError::TimestampTooNew)
    } else if keys.len() == 0 {
        if key_bytes_safe(req.signer@) && bytes_sig_valid(
            req.signer@,
            req.spec_signing_bytes(),
            req.signature@,
        ) {
            Ok(key_bytes_b58(req.signer@))
        } else {
            Err(AuthError::SignatureInvalid)
        }
    } else {
        match scan_keys(keys, req.spec_signing_bytes(), req.signature@) {
            Some(identity) => Ok(identity),
            None => Err(AuthError::UnauthorizedSigner),
        }
    }
}

/// The character form of an admission result.
pub open spec fn admit_result_view(r: Result<String, AuthError>) -> Result<Seq<char>, AuthError> {
    match r {
        Ok(identity) => Ok(identity@),
        Err(e) => Err(e),
    }
}

proof fn lemma_scan_some(keys: Seq<Seq<char>>, msg: Seq<u8>, sig: Seq<u8>)
    ensures
        (scan_keys(keys, msg, sig) is Some) == exists|i: int|
            0 <= i < keys.len() && key_sig_valid(#[trigger] keys[i], msg, sig),
        scan_keys(keys, msg, sig) matches Some(k) ==> exists|i: int|
            0 <= i < keys.len() && #[trigger] keys[i] == k && key_sig_valid(k, msg, sig),
    decreases keys.len(),
{
    if keys.len() == 0 {
    } else if key_sig_valid(keys[0], msg, sig) {
        assert(0 <= 0 < keys.len() && key_sig_valid(keys[0], msg, sig));
    } else {
        let rest = keys.drop_first();
        lemma_scan_some(rest, msg, sig);
        if exists|i: int| 0 <= i < keys.len() && key_sig_valid(#[trigger] keys[i], msg, sig) {
            let i = choose|i: int| 0 <= i < keys.len() && key_sig_valid(#[trigger] keys[i], msg, sig);
            assert(i != 0);
            assert(rest[i - 1] == keys[i]);
            assert(scan_keys(rest, msg, sig) is Some);
        }
        if scan_keys(rest, msg, sig) is Some {
            let j = choose|j: int| 0 <= j < rest.len() && key_sig_valid(#[trigger] rest[j], msg, sig);
            assert(rest[j] == keys[j + 1]);
            assert(key_sig_valid(keys[j + 1], msg, sig));
        }
        match scan_keys(keys, msg, sig) {
            Some(k) => {
                let j = choose|j: int|
                    0 <= j < rest.len() && #[trigger] rest[j] == k && key_sig_valid(k, msg, sig);
                assert(keys[j + 1] == k);
            },
            None => {},
        }
    }
}

/// Admission is owed inside the replay window: a registration whose
/// signature verifies under some configured key — or, in open mode, under
/// the well-formed key it itself carries — is admitted. The identity is a
/// function of the allow-list and the request alone, so the same
/// registration is always given the same identity. (A key a signature
/// verifies under is in particular safe to parse, so `key_bytes_safe` asks
/// nothing extra of honest registrations.)
pub proof fn lemma_admission_owed(keys: Seq<Seq<char>>, req: RegistrationRequest, now: u64)
    requires
        timestamp_in_window(req.timestamp, now),
        keys.len() == 0 ==> key_bytes_safe(req.signer@) && bytes_sig_valid(
            req.signer@,
            req.spec_signing_bytes(),
            req.signature@,
        ),
        keys.len() > 0 ==> exists|i: int|
            0 <= i < keys.len() && key_sig_valid(
                #[trigger] keys[i],
                req.spec_signing_bytes(),
                req.signature@,
            ),
    ensures
        admit_spec(keys, req, now) is Ok,
{
    if keys.len() > 0 {
        lemma_scan_some(keys, req.spec_signing_bytes(), req.signature@);
    }
}

/// Outside the replay window every registration is refused with a timestamp
/// error, whatever its signature or signer.
pub proof fn lemma_stale_rejected(keys: Seq<Seq<char>>, req: RegistrationRequest, now: u64)
    requires
        !timestamp_in_window(req.timestamp, now),
    ensures
        admit_spec(keys, req, now) is Err,
        now - req.timestamp > REPLAY_WINDOW_MILLIS ==> admit_spec(keys, req, now) == Err::<
            Seq<char>,
            AuthError,
        >(AuthError::TimestampTooOld),
        req.timestamp - now > REPLAY_WINDOW_MILLIS ==> admit_spec(keys, req, now) == Err::<
            Seq<char>,
            AuthError,
        >(AuthError::TimestampTooNew),
{
}

/// With a non-empty allow-list, a registration that no configured key
/// verifies is refused as an unauthorized signer — even when its signature
/// is valid under the key the request itself carries, since nothing here
/// constrains that key.
pub proof fn lemma_unconfigured_signer_rejected(
    keys: Seq<Seq<char>>,
    req: RegistrationRequest,
    now: u64,
)
    requires
        timestamp_in_window(req.timestamp, now),
        keys.len() > 0,
        forall|i: int|
            0 <= i < keys.len() ==> !key_sig_valid(
                #[trigger] keys[i],
                req.spec_signing_bytes(),
                req.signature@,
            ),
    ensures
        admit_spec(keys, req, now) == Err::<Seq<char>, AuthError>(AuthError::UnauthorizedSigner),
{
    lemma_scan_some(keys, req.spec_signing_bytes(), req.signature@);
}

/// Index of the first comma in `s`, or `s.len()` when there is none.
pub open spec fn first_comma(s: Seq<char>) -> nat
    decreases s.len(),
{
    if s.len() == 0 {
        0
    } else if s[0] == ',' {
        0
    } else {
        (1 + first_comma(s.drop_first())) as nat
    }
}

proof fn lemma_first_comma_at(t: Seq<char>, e: int)
    requires
        0 <= e <= t.len(),
        forall|k: int| 0 <= k < e ==> t[k] != ',',
        e < t.len() ==> t[e] == ',',
    ensures
        first_comma(t) == e,
    decreases t.len(),
{
    if e == 0 {
        if t.len() > 0 {
            assert(t[0] == ',');
        }
    } else {
        assert(t[0] != ',');
        assert forall|k: int| 0 <= k < e - 1 implies t.drop_first()[k] != ',' by {
            assert(t.drop_first()[k] == t[k + 1]);
        }
        assert(e - 1 < t.drop_first().len() ==> t.drop_first()[e - 1] == t[e]);
        lemma_first_comma_at(t.drop_first(), e - 1);
    }
}

/// The comma-separated segments of `s`: what stands between consecutive
/// commas, in order. An empty string has a single empty segment.
pub open spec fn split_commas(s: Seq<char>) -> Seq<Seq<char>>
    decreases s.len(),
{
    let c = first_comma(s) as int;
    if c >= s.len() {
        seq![s]
    } else {
        seq![s.take(c)] + split_commas(s.skip(c + 1))
    }
}

/// Whether every segment is the base58 form of a public key.
pub open spec fn all_keys_valid(segs: Seq<Seq<char>>) -> bool {
    forall|i: int| 0 <= i < segs.len() ==> is_key_b58(#[trigger] segs[i])
}

/// Parse the configured allow-list: an empty string selects open mode and
/// yields no keys; otherwise every comma-separated segment must be a base58
/// public key, and the first segment that is not comes back as the error.
pub fn parse_authorized_keys(keys_str: &str) -> (r: Result<Vec<String>, String>)
    ensures
        keys_str@.len() == 0 ==> (r matches Ok(v) && v@.len() == 0),
        keys_str@.len() > 0 ==> match r {
            Ok(v) => {
                &&& v@.map_values(|k: String| k@) == split_commas(keys_str@)
                &&& all_keys_valid(split_commas(keys_str@))
            },
            Err(bad) => exists|i: int|
                #![auto]
                {
                    &&& 0 <= i < split_commas(keys_str@).len()
                    &&& !is_key_b58(split_commas(keys_str@)[i])
                    &&& bad@ == split_commas(keys_str@)[i]
                    &&& forall|j: int| 0 <= j < i ==> is_key_b58(split_commas(keys_str@)[j])
                },
        },
{
    let total = keys_str.unicode_len();
    if total == 0 {
        return Ok(Vec::new());
    }
    let mut keys: Vec<String> = Vec::new();
    let mut start: usize = 0;
    proof {
        assert(keys_str@.skip(0) =~= keys_str@);
        assert(keys@.map_values(|k: String| k@) =~= Seq::<Seq<char>>::empty());
    }
    loop
        invariant
            start <= total,
            0 < total == keys_str@.len(),
            split_commas(keys_str@) =~= keys@.map_values(|k: String| k@) + split_commas(
                keys_str@.skip(start as int),
            ),
            all_keys_valid(keys@.map_values(|k: String| k@)),
        decreases total - start,
    {
        let mut end: usize = start;
        while end < total && keys_str.get_char(end) != ','
            invariant
                start <= end <= total,
                total == keys_str@.len(),
                forall|k: int| start <= k < end ==> keys_str@[k] != ',',
            decreases total - end,
        {
            end = end + 1;
        }
        let ghost s = keys_str@;
        let ghost tail = s.skip(start as int);
        proof {
            assert forall|k: int| 0 <= k < end - start implies tail[k] != ',' by {
                assert(tail[k] == s[k + start]);
            }
            assert(end - start < tail.len() ==> tail[end - start] == s[end as int]);
            lemma_first_comma_at(tail, end - start);
        }
        let segment = keys_str.substring_char(start, end).to_owned();
        proof {
            assert(segment@ =~= tail.take(end - start));
        }
        if !check_key_b58(segment.as_str()) {
            proof {
                let views = keys@.map_values(|k: String| k@);
                let i = views.len() as int;
                if end == total {
                    assert(tail.take(end - start) =~= tail);
                    assert(split_commas(tail) == seq![tail]);
                } else {
                    assert(split_commas(tail) == seq![tail.take(end - start)] + split_commas(
                        tail.skip(end - start + 1),
                    ));
                }
                assert(split_commas(s)[i] == segment@);
                assert(forall|j: int| 0 <= j < i ==> is_key_b58(#[trigger] split_commas(s)[j]));
            }
            return Err(segment);
        }
        let ghost prior = keys@.map_values(|k: String| k@);
        keys.push(segment);
        proof {
            assert(keys@.map_values(|k: String| k@) =~= prior.push(tail.take(end - start)));
        }
        if end == total {
            proof {
                assert(tail.take(end - start) =~= tail);
                assert(split_commas(tail) == seq![tail]);
                assert(split_commas(s) =~= keys@.map_values(|k: String| k@));
            }
            return Ok(keys);
        }
        proof {
            assert(split_commas(tail) == seq![tail.take(end - start)] + split_commas(
                tail.skip(end - start + 1),
            ));
            assert(tail.skip(end - start + 1) =~= s.skip(end + 1));
            assert(split_commas(s) =~= keys@.map_values(|k: String| k@) + split_commas(
                s.skip(end + 1),
            ));
        }
        start = end + 1;
    }
}

/// The authorization gate: the allow-list, loaded once at startup and
/// read-only afterwards. An empty list selects open mode.
pub struct Gate {
    allowed: Vec<String>,
}

impl View for Gate {
    type V = Seq<Seq<char>>;

    closed spec fn view(&self) -> Seq<Seq<char>> {
        self.allowed@.map_values(|k: String| k@)
    }
}

impl Gate {
    /// A gate holding exactly the given allow-list.
    pub fn new(allowed: Vec<String>) -> (g: Gate)
        ensures
            g@ == allowed@.map_values(|k: String| k@),
    {
        let g = Gate { allowed };
        g
    }

    /// Whether this gate runs in open mode.
    pub fn is_open_mode(&self) -> (b: bool)
        ensures
            b == (self@.len() == 0),
    {
        self.allowed.len() == 0
    }

    /// How many keys are configured.
    pub fn allowed_count(&self) -> (n: usize)
        ensures
            n == self@.len(),
    {
        self.allowed.len()
    }

    /// Decide a registration: exactly [`admit_spec`] of this gate's
    /// allow-list, the request, and `now_millis`.
    pub fn admit_registration(&self, req: &RegistrationRequest, now_millis: u64) -> (r: Result<
        String,
        AuthError,
    >)
        ensures
            admit_result_view(r) == admit_spec(self@, *req, now_millis),
    {
        if now_millis > req.timestamp && now_millis - req.timestamp > REPLAY_WINDOW_MILLIS {
            return Err(AuthError::TimestampTooOld);
        }
        if req.timestamp > now_millis && req.timestamp - now_millis > REPLAY_WINDOW_MILLIS {
            return Err(AuthError::TimestampTooNew);
        }
        let msg = req.signing_bytes();
        if self.allowed.len() == 0 {
            if key_bytes_safe_check(&req.signer) && verify_with_key_bytes(
                &req.signer,
                &msg,
                &req.signature,
            ) {
                match key_bytes_to_b58(&req.signer) {
                    Some(identity) => Ok(identity),
                    None => {
                        // A signature that verifies implies the key parses,
                        // so this branch is provably unreachable.
                        proof {
                            assert(false);
                        }
                        Err(AuthError::SignatureInvalid)
                    },
                }
            } else {
                Err(AuthError::SignatureInvalid)
            }
        } else {
            let n = self.allowed.len();
            let mut i: usize = 0;
            proof {
                assert(self@.skip(0) =~= self@);
            }
            while i < n
                invariant
                    i <= n,
                    0 < n == self.allowed.len(),
                    now_millis - req.timestamp <= REPLAY_WINDOW_MILLIS,
                    req.timestamp - now_millis <= REPLAY_WINDOW_MILLIS,
                    scan_keys(self@.skip(i as int), msg@, req.signature@) == scan_keys(
                        self@,
                        msg@,
                        req.signature@,
                    ),
                    msg@ == req.spec_signing_bytes(),
                decreases n - i,
            {
                let ghost before = self@.skip(i as int);
                if verify_with_key_b58(self.allowed[i].as_str(), &msg, &req.signature) {
                    proof {
                        assert(before[0] == self@[i as int]);
                        assert(scan_keys(before, msg@, req.signature@) == Some(self@[i as int]));
                    }
                    return Ok(self.allowed[i].clone());
                }
                proof {
                    assert(before[0] == self@[i as int]);
                    assert(before.drop_first() =~= self@.skip(i + 1));
                }
                i = i + 1;
            }
            proof {
                assert(self@.skip(n as int) =~= Seq::<Seq<char>>::empty());
            }
            Err(AuthError::UnauthorizedSigner)
        }
    }
}

} // verus!
