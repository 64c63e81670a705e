//! The request server's wire format.
//!
//! A request datagram starts with 22 little-endian 32-bit words: the
//! application id, the target user id, the target group id (negative when no
//! group is given), and 19 length fields — package path, exec directory,
//! data directory, and up to 16 overlay directories (a zero length marks an
//! unused slot). The words are followed by the NUL-terminated path strings,
//! concatenated in field order, each declared length counting its
//! terminator. A request whose remaining payload is shorter than the sum of
//! the declared lengths is malformed.

use vstd::prelude::*;
use crate::bytesfmt::push_all;
use crate::errors::RockerErr;

verus! {

/// Number of 32-bit words in a request's fixed header.
pub const WIRE_WORDS: usize = 22;

/// Byte size of a request's fixed header.
pub const WIRE_META_SIZE: usize = 88;

/// Index of the first length field in the header.
pub const WIRE_FIRST_LEN: usize = 3;

/// Largest number of overlay directories one request can express.
pub const WIRE_MAX_OVERLAYS: usize = 16;

/// Header words at and beyond this bound encode negative values.
pub const WORD_SIGN_BOUND: u32 = 0x8000_0000;

/// Byte cap of one request datagram.
pub const WIRE_MAX_MSG: usize = 512;

/// A decoded sandbox request: the caller's plain input values.
#[derive(Debug, PartialEq, Eq)]
pub struct WireRequest {
    /// Application identifier.
    pub app_id: u32,
    /// User id the sandboxed application runs as.
    pub uid: u32,
    /// Group id the sandboxed application runs as, when one was given.
    pub gid: Option<u32>,
    /// Path of the read-only application package file.
    pub app_pkg_path: Vec<u8>,
    /// Directory the package is mounted onto.
    pub app_exec_dir: Vec<u8>,
    /// Root directory for the sandbox's writable data.
    pub app_data_dir: Vec<u8>,
    /// Top-level directories to shadow with writable overlays.
    pub app_overlay_dirs: Vec<Vec<u8>>,
}

/// The mathematical content of a request.
#[verifier::ext_equal]
pub ghost struct WireView {
    pub app_id: u32,
    pub uid: u32,
    pub gid: Option<u32>,
    pub pkg: Seq<u8>,
    pub exec_dir: Seq<u8>,
    pub data_dir: Seq<u8>,
    pub overlays: Seq<Seq<u8>>,
}

impl View for WireRequest {
    type V = WireView;

    open spec fn view(&self) -> WireView {
        WireView {
            app_id: self.app_id,
            uid: self.uid,
            gid: self.gid,
            pkg: self.app_pkg_path@,
            exec_dir: self.app_exec_dir@,
            data_dir: self.app_data_dir@,
            overlays: self.app_overlay_dirs.deep_view(),
        }
    }
}

/// The value of four little-endian bytes.
pub open spec fn spec_word_of(b: Seq<u8>) -> int {
    b[0] + 256 * b[1] + 65536 * b[2] + 16777216 * b[3]
}

/// The value of header word `k` of the request bytes.
pub open spec fn spec_word(req: Seq<u8>, k: int) -> int {
    spec_word_of(req.subrange(4 * k, 4 * k + 4))
}

/// Whether a header word encodes a negative value.
pub open spec fn spec_word_neg(req: Seq<u8>, k: int) -> bool {
    spec_word(req, k) >= WORD_SIGN_BOUND
}

/// The declared length of field `k`, a negative word counting as zero.
pub open spec fn spec_flen(req: Seq<u8>, k: int) -> int {
    if spec_word_neg(req, k) {
        0
    } else {
        spec_word(req, k)
    }
}

/// The sum of the declared lengths of the fields before field `k`.
pub open spec fn spec_lens_sum(req: Seq<u8>, k: int) -> int
    decreases k - WIRE_FIRST_LEN,
{
    if k <= WIRE_FIRST_LEN {
        0
    } else {
        spec_lens_sum(req, k - 1) + spec_flen(req, k - 1)
    }
}

/// The byte offset where field `k`'s string starts.
pub open spec fn spec_field_off(req: Seq<u8>, k: int) -> int {
    WIRE_META_SIZE + spec_lens_sum(req, k)
}

/// The string of field `k`, without its NUL terminator.
pub open spec fn spec_field_bytes(req: Seq<u8>, k: int) -> Seq<u8> {
    req.subrange(spec_field_off(req, k), spec_field_off(req, k) + spec_flen(req, k) - 1)
}

/// A used field must hold exactly its NUL terminator as its last byte.
pub open spec fn spec_field_ok(req: Seq<u8>, k: int) -> bool {
    spec_flen(req, k) > 0 ==> {
        let off = spec_field_off(req, k);
        let l = spec_flen(req, k);
        &&& req[off + l - 1] == 0
        &&& forall|i: int| off <= i < off + l - 1 ==> req[i] != 0
    }
}

/// Well-formedness of a request datagram: long enough for the header,
/// positive application and user ids, a group word that is not zero,
/// nonempty package/exec/data fields, a payload at least as long as the
/// declared lengths, and a properly terminated string in every used field.
pub open spec fn wire_wf(req: Seq<u8>) -> bool {
    &&& req.len() >= WIRE_META_SIZE
    &&& 0 < spec_word(req, 0) < WORD_SIGN_BOUND
    &&& 0 < spec_word(req, 1) < WORD_SIGN_BOUND
    &&& spec_word(req, 2) != 0
    &&& spec_flen(req, 3) > 0
    &&& spec_flen(req, 4) > 0
    &&& spec_flen(req, 5) > 0
    &&& req.len() - WIRE_META_SIZE >= spec_lens_sum(req, WIRE_WORDS as int)
    &&& forall|k: int| WIRE_FIRST_LEN <= k < WIRE_WORDS ==> spec_field_ok(req, k)
}

/// The overlay directories declared by the slots before slot `k`.
pub open spec fn spec_overlays(req: Seq<u8>, k: int) -> Seq<Seq<u8>>
    decreases k - 6,
{
    if k <= 6 {
        Seq::empty()
    } else if spec_flen(req, k - 1) > 0 {
        spec_overlays(req, k - 1).push(spec_field_bytes(req, k - 1))
    } else {
        spec_overlays(req, k - 1)
    }
}

/// The decoded content of a well-formed request.
pub open spec fn spec_wire_parse(req: Seq<u8>) -> WireView {
    WireView {
        app_id: spec_word(req, 0) as u32,
        uid: spec_word(req, 1) as u32,
        gid: if spec_word_neg(req, 2) {
            None
        } else {
            Some(spec_word(req, 2) as u32)
        },
        pkg: spec_field_bytes(req, 3),
        exec_dir: spec_field_bytes(req, 4),
        data_dir: spec_field_bytes(req, 5),
        overlays: spec_overlays(req, WIRE_WORDS as int),
    }
}

/// Every declared length is non-negative, so the partial sums grow.
proof fn lemma_lens_sum_mono(req: Seq<u8>, j: int, k: int)
    requires
        WIRE_FIRST_LEN <= j <= k,
    ensures
        spec_lens_sum(req, j) <= spec_lens_sum(req, k),
    decreases k - j,
{
    if j < k {
        lemma_lens_sum_mono(req, j, k - 1);
    }
}

/// Reads header word `k` of the request.
fn word_at(req: &Vec<u8>, k: usize) -> (r: u32)
    requires
        k < WIRE_WORDS,
        4 * k + 4 <= req@.len(),
    ensures
        r == spec_word(req@, k as int),
{
    let b0 = req[4 * k] as u32;
    let b1 = req[4 * k + 1] as u32;
    let b2 = req[4 * k + 2] as u32;
    let b3 = req[4 * k + 3] as u32;
    proof {
        let s = req@.subrange(4 * k as int, 4 * k as int + 4);
        assert(s[0] == req@[4 * k as int]);
        assert(s[1] == req@[4 * k as int + 1]);
        assert(s[2] == req@[4 * k as int + 2]);
        assert(s[3] == req@[4 * k as int + 3]);
    }
    b0 + 256 * b1 + 65536 * b2 + 16777216 * b3
}

/// Copies `req[lo..hi]` into a fresh vector.
fn sub_vec(req: &Vec<u8>, lo: usize, hi: usize) -> (r: Vec<u8>)
    requires
        lo <= hi <= req@.len(),
    ensures
        r@ == req@.subrange(lo as int, hi as int),
{
    let mut v: Vec<u8> = Vec::new();
    let mut i: usize = lo;
    while i < hi
        invariant
            lo <= i <= hi <= req@.len(),
            v@ == req@.subrange(lo as int, i as int),
        decreases hi - i,
    {
        v.push(req[i]);
        proof {
            assert(req@.subrange(lo as int, i as int + 1) =~= req@.subrange(lo as int, i as int)
                .push(req@[i as int]));
        }
        i = i + 1;
    }
    v
}

/// Decodes a request datagram.
///
/// Succeeds exactly on well-formed requests and then reproduces the
/// application id, user id, group id, the three path fields and the overlay
/// list that the bytes declare.
#[verifier::loop_isolation(false)]
pub fn req_parse(req: &Vec<u8>) -> (r: Result<WireRequest, RockerErr>)
    ensures
        r matches Ok(w) ==> wire_wf(req@) && w@ == spec_wire_parse(req@),
        r matches Err(e) ==> !wire_wf(req@) && e == RockerErr::BadRequest,
{
    if req.len() < WIRE_META_SIZE {
        return Err(RockerErr::BadRequest);
    }

    // Read the 22 header words.
    let mut words: Vec<u32> = Vec::new();
    let mut k: usize = 0;
    while k < WIRE_WORDS
        invariant
            0 <= k <= WIRE_WORDS,
            req@.len() >= WIRE_META_SIZE,
            words@.len() == k,
            forall|j: int| 0 <= j < k ==> words@[j] == spec_word(req@, j),
        decreases WIRE_WORDS - k,
    {
        words.push(word_at(req, k));
        k = k + 1;
    }

    // Validate the id words.
    let w0 = words[0];
    if w0 == 0 || w0 >= WORD_SIGN_BOUND {
        return Err(RockerErr::BadRequest);
    }
    let w1 = words[1];
    if w1 == 0 || w1 >= WORD_SIGN_BOUND {
        return Err(RockerErr::BadRequest);
    }
    let w2 = words[2];
    if w2 == 0 {
        return Err(RockerErr::BadRequest);
    }
    let gid: Option<u32> = if w2 >= WORD_SIGN_BOUND {
        None
    } else {
        Some(w2)
    };

    // The payload must be at least as long as the declared lengths.
    let mut total: u64 = 0;
    let mut k: usize = WIRE_FIRST_LEN;
    while k < WIRE_WORDS
        invariant
            WIRE_FIRST_LEN <= k <= WIRE_WORDS,
            words@.len() == WIRE_WORDS,
            forall|j: int| 0 <= j < WIRE_WORDS ==> words@[j] == spec_word(req@, j),
            total == spec_lens_sum(req@, k as int),
            total <= (k - WIRE_FIRST_LEN) * 0x8000_0000,
        decreases WIRE_WORDS - k,
    {
        let w = words[k];
        let l: u64 = if w >= WORD_SIGN_BOUND {
            0
        } else {
            w as u64
        };
        assert(l == spec_flen(req@, k as int));
        total = total + l;
        k = k + 1;
    }
    if (req.len() as u64) - (WIRE_META_SIZE as u64) < total {
        return Err(RockerErr::BadRequest);
    }

    let l3 = flen_of(words[3]);
    let l4 = flen_of(words[4]);
    let l5 = flen_of(words[5]);
    assert(l3 == spec_flen(req@, 3));
    assert(l4 == spec_flen(req@, 4));
    assert(l5 == spec_flen(req@, 5));
    if l3 == 0 || l4 == 0 || l5 == 0 {
        return Err(RockerErr::BadRequest);
    }

    // Extract the fields.
    let mut pkg: Vec<u8> = Vec::new();
    let mut exec: Vec<u8> = Vec::new();
    let mut data: Vec<u8> = Vec::new();
    let mut overlays: Vec<Vec<u8>> = Vec::new();
    let mut off: usize = WIRE_META_SIZE;
    let mut k: usize = WIRE_FIRST_LEN;
    while k < WIRE_WORDS
        invariant
            WIRE_FIRST_LEN <= k <= WIRE_WORDS,
            words@.len() == WIRE_WORDS,
            forall|j: int| 0 <= j < WIRE_WORDS ==> words@[j] == spec_word(req@, j),
            req@.len() >= WIRE_META_SIZE,
            req@.len() - WIRE_META_SIZE >= spec_lens_sum(req@, WIRE_WORDS as int),
            off == spec_field_off(req@, k as int),
            forall|j: int| WIRE_FIRST_LEN <= j < k ==> spec_field_ok(req@, j),
            k > 3 ==> pkg@ == spec_field_bytes(req@, 3),
            k > 4 ==> exec@ == spec_field_bytes(req@, 4),
            k > 5 ==> data@ == spec_field_bytes(req@, 5),
            k >= 6 ==> overlays.deep_view() == spec_overlays(req@, k as int),
            k < 6 ==> overlays@.len() == 0,
        decreases WIRE_WORDS - k,
    {
        let l = flen_of(words[k]);
        assert(l == spec_flen(req@, k as int));
        proof {
            lemma_lens_sum_mono(req@, k as int + 1, WIRE_WORDS as int);
            assert(spec_lens_sum(req@, k as int + 1) == spec_lens_sum(req@, k as int) + spec_flen(
                req@,
                k as int,
            ));
        }
        if l > 0 {
            let lo = off;
            let hi = off + (l as usize);
            assert(hi <= req@.len());
            if req[hi - 1] != 0 {
                assert(!spec_field_ok(req@, k as int));
                return Err(RockerErr::BadRequest);
            }
            let mut i: usize = lo;
            while i < hi - 1
                invariant
                    lo <= i < hi <= req@.len(),
                    req@[hi - 1] == 0,
                    forall|j: int| lo <= j < i ==> req@[j] != 0,
                decreases hi - i,
            {
                if req[i] == 0 {
                    assert(!spec_field_ok(req@, k as int)) by {
                        assert(req@[i as int] == 0);
                    }
                    return Err(RockerErr::BadRequest);
                }
                i = i + 1;
            }
            assert(spec_field_ok(req@, k as int));
            let field = sub_vec(req, lo, hi - 1);
            assert(field@ == spec_field_bytes(req@, k as int));
            if k == 3 {
                pkg = field;
            } else if k == 4 {
                exec = field;
            } else if k == 5 {
                data = field;
            } else {
                overlays.push(field);
                proof {
                    assert(overlays.deep_view() =~~= spec_overlays(req@, k as int).push(
                        spec_field_bytes(req@, k as int),
                    ));
                }
            }
            off = hi;
        } else {
            assert(spec_field_ok(req@, k as int));
        }
        proof {
            if k as int + 1 >= 6 && k >= 6 && l == 0 {
                assert(overlays.deep_view() =~~= spec_overlays(req@, k as int + 1));
            }
            if k == 5 {
                assert(overlays.deep_view() =~~= spec_overlays(req@, 6));
            }
        }
        k = k + 1;
    }

    let w = WireRequest {
        app_id: w0,
        uid: w1,
        gid,
        app_pkg_path: pkg,
        app_exec_dir: exec,
        app_data_dir: data,
        app_overlay_dirs: overlays,
    };
    proof {
        assert(wire_wf(req@));
        assert(w@ =~~= spec_wire_parse(req@));
    }
    Ok(w)
}

/// The declared length a header word stands for: its value, a negative word
/// counting as zero.
fn flen_of(w: u32) -> (r: u32)
    ensures
        w >= WORD_SIGN_BOUND ==> r == 0,
        w < WORD_SIGN_BOUND ==> r == w,
{
    if w >= WORD_SIGN_BOUND {
        0
    } else {
        w
    }
}

/// The little-endian bytes of a 32-bit value.
pub open spec fn spec_word_le(w: u32) -> Seq<u8> {
    seq![
        (w % 256) as u8,
        ((w / 256) % 256) as u8,
        ((w / 65536) % 256) as u8,
        ((w / 16777216) % 256) as u8,
    ]
}

/// Reading back the little-endian bytes of a value gives the value.
proof fn lemma_word_le_value(w: u32)
    ensures
        spec_word_of(spec_word_le(w)) == w,
{
    let x = w as int;
    vstd::arithmetic::div_mod::lemma_fundamental_div_mod(x, 256);
    vstd::arithmetic::div_mod::lemma_fundamental_div_mod(x / 256, 256);
    vstd::arithmetic::div_mod::lemma_fundamental_div_mod(x / 65536, 256);
    vstd::arithmetic::div_mod::lemma_div_denominator(x, 256, 256);
    vstd::arithmetic::div_mod::lemma_div_denominator(x, 65536, 256);
    vstd::arithmetic::div_mod::lemma_div_pos_is_pos(x, 256);
    vstd::arithmetic::div_mod::lemma_div_pos_is_pos(x / 256, 256);
    vstd::arithmetic::div_mod::lemma_div_pos_is_pos(x / 65536, 256);
    vstd::arithmetic::div_mod::lemma_basic_div(x / 16777216, 256);
}

/// No byte of `s` is zero.
pub open spec fn spec_no_nul(s: Seq<u8>) -> bool {
    forall|i: int| 0 <= i < s.len() ==> s[i] != 0
}

/// The header word that encodes the group id: the id itself, or the
/// all-ones word (a negative value) when no group is given.
pub open spec fn spec_gid_word(v: WireView) -> u32 {
    match v.gid {
        Some(g) => g,
        None => 0xFFFF_FFFFu32,
    }
}

/// The length word of overlay slot `i`.
pub open spec fn spec_olen(v: WireView, i: int) -> u32 {
    if i < v.overlays.len() {
        (v.overlays[i].len() + 1) as u32
    } else {
        0
    }
}

/// The 22 header words that encode a request.
pub open spec fn spec_enc_words(v: WireView) -> Seq<u32> {
    seq![
        v.app_id,
        v.uid,
        spec_gid_word(v),
        (v.pkg.len() + 1) as u32,
        (v.exec_dir.len() + 1) as u32,
        (v.data_dir.len() + 1) as u32,
    ] + Seq::new(WIRE_MAX_OVERLAYS as nat, |i: int| spec_olen(v, i))
}

/// The words of a header laid out as little-endian bytes.
pub open spec fn spec_words_bytes(ws: Seq<u32>) -> Seq<u8>
    decreases ws.len(),
{
    if ws.len() == 0 {
        Seq::empty()
    } else {
        spec_words_bytes(ws.drop_last()) + spec_word_le(ws.last())
    }
}

/// The payload bytes of field `k`: the path with its NUL terminator, or
/// nothing for an unused overlay slot.
pub open spec fn spec_field_payload(v: WireView, k: int) -> Seq<u8> {
    if k == 3 {
        v.pkg.push(0)
    } else if k == 4 {
        v.exec_dir.push(0)
    } else if k == 5 {
        v.data_dir.push(0)
    } else if 0 <= k - 6 < v.overlays.len() {
        v.overlays[k - 6].push(0)
    } else {
        Seq::empty()
    }
}

/// The payload bytes of the fields before field `k`, concatenated.
pub open spec fn spec_fields_bytes(v: WireView, k: int) -> Seq<u8>
    decreases k - WIRE_FIRST_LEN,
{
    if k <= WIRE_FIRST_LEN {
        Seq::empty()
    } else {
        spec_fields_bytes(v, k - 1) + spec_field_payload(v, k - 1)
    }
}

/// The encoded datagram of a request.
pub open spec fn spec_wire_encode(v: WireView) -> Seq<u8> {
    spec_words_bytes(spec_enc_words(v)) + spec_fields_bytes(v, WIRE_WORDS as int)
}

/// What a request must satisfy to be expressible on the wire: positive ids
/// below the sign bound, at most 16 overlay directories, and NUL-free paths
/// whose lengths fit their header words.
pub open spec fn wire_encodable(v: WireView) -> bool {
    &&& 0 < v.app_id < WORD_SIGN_BOUND
    &&& 0 < v.uid < WORD_SIGN_BOUND
    &&& match v.gid {
        Some(g) => 0 < g < WORD_SIGN_BOUND,
        None => true,
    }
    &&& v.overlays.len() <= WIRE_MAX_OVERLAYS
    &&& v.pkg.len() + 1 < WORD_SIGN_BOUND && spec_no_nul(v.pkg)
    &&& v.exec_dir.len() + 1 < WORD_SIGN_BOUND && spec_no_nul(v.exec_dir)
    &&& v.data_dir.len() + 1 < WORD_SIGN_BOUND && spec_no_nul(v.data_dir)
    &&& forall|i: int|
        0 <= i < v.overlays.len() ==> (#[trigger] v.overlays[i]).len() + 1 < WORD_SIGN_BOUND
            && spec_no_nul(v.overlays[i])
}

/// A header lays out four bytes per word, word `k` at offset `4 * k`.
proof fn lemma_words_bytes(ws: Seq<u32>)
    ensures
        spec_words_bytes(ws).len() == 4 * ws.len(),
        forall|k: int|
            0 <= k < ws.len() ==> #[trigger] spec_words_bytes(ws).subrange(4 * k, 4 * k + 4)
                == spec_word_le(ws[k]),
    decreases ws.len(),
{
    if ws.len() > 0 {
        lemma_words_bytes(ws.drop_last());
        let pre = spec_words_bytes(ws.drop_last());
        let all = spec_words_bytes(ws);
        assert forall|k: int| 0 <= k < ws.len() implies #[trigger] all.subrange(4 * k, 4 * k + 4)
            == spec_word_le(ws[k]) by {
            if k < ws.len() - 1 {
                assert(all.subrange(4 * k, 4 * k + 4) =~= pre.subrange(4 * k, 4 * k + 4));
            } else {
                assert(all.subrange(4 * k, 4 * k + 4) =~= spec_word_le(ws.last()));
            }
        }
    }
}

/// In an encoded request every header word reads back as the word written.
proof fn lemma_enc_words(v: WireView)
    requires
        wire_encodable(v),
    ensures
        spec_wire_encode(v).len() == WIRE_META_SIZE + spec_fields_bytes(v, WIRE_WORDS as int).len(),
        forall|k: int|
            0 <= k < WIRE_WORDS ==> #[trigger] spec_word(spec_wire_encode(v), k) == spec_enc_words(
                v,
            )[k],
{
    let ws = spec_enc_words(v);
    let enc = spec_wire_encode(v);
    lemma_words_bytes(ws);
    assert(ws.len() == WIRE_WORDS);
    assert forall|k: int| 0 <= k < WIRE_WORDS implies #[trigger] spec_word(enc, k) == ws[k] by {
        assert(enc.subrange(4 * k, 4 * k + 4) =~= spec_words_bytes(ws).subrange(4 * k, 4 * k + 4));
        lemma_word_le_value(ws[k]);
    }
}

/// The length of field `k`'s payload equals its declared length word.
proof fn lemma_payload_len(v: WireView, k: int)
    requires
        wire_encodable(v),
        WIRE_FIRST_LEN <= k < WIRE_WORDS,
    ensures
        spec_field_payload(v, k).len() == spec_flen(spec_wire_encode(v), k),
        spec_flen(spec_wire_encode(v), k) == spec_enc_words(v)[k],
{
    lemma_enc_words(v);
    assert(spec_word(spec_wire_encode(v), k) == spec_enc_words(v)[k]);
}

/// In an encoded request the declared-length prefix sums match the payload
/// laid out so far.
proof fn lemma_enc_sums(v: WireView, k: int)
    requires
        wire_encodable(v),
        WIRE_FIRST_LEN <= k <= WIRE_WORDS,
    ensures
        spec_lens_sum(spec_wire_encode(v), k) == spec_fields_bytes(v, k).len(),
    decreases k,
{
    if k > WIRE_FIRST_LEN {
        lemma_enc_sums(v, k - 1);
        lemma_payload_len(v, k - 1);
    }
}

/// Each field of an encoded request reads back as the payload written.
proof fn lemma_enc_field_slice(v: WireView, k: int, m: int)
    requires
        wire_encodable(v),
        WIRE_FIRST_LEN <= k < m <= WIRE_WORDS,
    ensures
        spec_fields_bytes(v, m).subrange(
            spec_fields_bytes(v, k).len() as int,
            spec_fields_bytes(v, k).len() + spec_field_payload(v, k).len() as int,
        ) == spec_field_payload(v, k),
    decreases m,
{
    let lo = spec_fields_bytes(v, k).len() as int;
    let hi = lo + spec_field_payload(v, k).len();
    if m == k + 1 {
        assert(spec_fields_bytes(v, m) == spec_fields_bytes(v, k) + spec_field_payload(v, k));
        assert(spec_fields_bytes(v, m).subrange(lo, hi) =~= spec_field_payload(v, k));
    } else {
        lemma_enc_field_slice(v, k, m - 1);
        assert(spec_fields_bytes(v, m) == spec_fields_bytes(v, m - 1) + spec_field_payload(
            v,
            m - 1,
        ));
        lemma_fields_bytes_mono(v, k + 1, m - 1);
        assert(spec_fields_bytes(v, k + 1) == spec_fields_bytes(v, k) + spec_field_payload(v, k));
        assert(hi <= spec_fields_bytes(v, m - 1).len());
        assert(spec_fields_bytes(v, m).subrange(lo, hi) =~= spec_fields_bytes(v, m - 1).subrange(
            lo,
            hi,
        ));
    }
}

/// Laying out more fields never shortens the payload.
proof fn lemma_fields_bytes_mono(v: WireView, j: int, k: int)
    requires
        WIRE_FIRST_LEN <= j <= k,
    ensures
        spec_fields_bytes(v, j).len() <= spec_fields_bytes(v, k).len(),
    decreases k - j,
{
    if j < k {
        lemma_fields_bytes_mono(v, j, k - 1);
    }
}

/// The extracted string of field `k` of an encoded request is the path that
/// was written, and the field is well formed.
proof fn lemma_enc_field(v: WireView, k: int)
    requires
        wire_encodable(v),
        WIRE_FIRST_LEN <= k < WIRE_WORDS,
    ensures
        spec_field_ok(spec_wire_encode(v), k),
        spec_flen(spec_wire_encode(v), k) > 0 ==> spec_field_bytes(spec_wire_encode(v), k)
            == spec_field_payload(v, k).drop_last(),
{
    let enc = spec_wire_encode(v);
    let pay = spec_field_payload(v, k);
    lemma_words_bytes(spec_enc_words(v));
    lemma_enc_words(v);
    lemma_enc_sums(v, k);
    lemma_payload_len(v, k);
    lemma_enc_field_slice(v, k, WIRE_WORDS as int);
    lemma_fields_bytes_mono(v, k + 1, WIRE_WORDS as int);
    assert(spec_fields_bytes(v, k + 1) == spec_fields_bytes(v, k) + spec_field_payload(v, k));
    let lo = spec_fields_bytes(v, k).len() as int;
    if spec_flen(enc, k) > 0 {
        let off = spec_field_off(enc, k);
        let l = spec_flen(enc, k);
        assert(lo + l <= spec_fields_bytes(v, WIRE_WORDS as int).len());
        assert(off == WIRE_META_SIZE + lo);
        assert(enc.subrange(off, off + l) =~= spec_fields_bytes(v, WIRE_WORDS as int).subrange(
            lo,
            lo + l,
        ));
        assert(enc.subrange(off, off + l) == pay);
        assert(enc[off + l - 1] == pay[l - 1]);
        assert(pay[l - 1] == 0);
        assert forall|i: int| off <= i < off + l - 1 implies enc[i] != 0 by {
            assert(enc[i] == enc.subrange(off, off + l)[i - off]);
            assert(pay[i - off] == pay.drop_last()[i - off]);
        }
        assert(spec_field_bytes(enc, k) =~= pay.drop_last());
    }
}

/// Encoding then decoding a request reproduces it exactly: the encoded
/// datagram is well formed and parses back to the same application id, user
/// id, group id, paths and overlay list.
pub proof fn lemma_wire_roundtrip(v: WireView)
    requires
        wire_encodable(v),
    ensures
        wire_wf(spec_wire_encode(v)),
        spec_wire_parse(spec_wire_encode(v)) == v,
{
    let enc = spec_wire_encode(v);
    let ws = spec_enc_words(v);
    lemma_enc_words(v);
    lemma_enc_sums(v, WIRE_WORDS as int);
    assert forall|k: int| WIRE_FIRST_LEN <= k < WIRE_WORDS implies spec_field_ok(enc, k) by {
        lemma_enc_field(v, k);
    }
    lemma_payload_len(v, 3);
    lemma_payload_len(v, 4);
    lemma_payload_len(v, 5);
    assert(wire_wf(enc));
    lemma_enc_field(v, 3);
    lemma_enc_field(v, 4);
    lemma_enc_field(v, 5);
    assert(v.pkg.push(0).drop_last() =~= v.pkg);
    assert(v.exec_dir.push(0).drop_last() =~= v.exec_dir);
    assert(v.data_dir.push(0).drop_last() =~= v.data_dir);
    assert forall|i: int| 0 <= i <= v.overlays.len() && i <= WIRE_MAX_OVERLAYS implies
        #[trigger] spec_overlays(enc, 6 + i) == v.overlays.take(i) by {
        lemma_enc_overlays(v, i);
    }
    lemma_overlays_tail(v, (6 + v.overlays.len()) as int);
    assert(v.overlays.take(v.overlays.len() as int) =~= v.overlays);
    assert(spec_wire_parse(enc) =~~= v);
}

/// The overlay slots of an encoded request parse back to the prefix of the
/// overlay list they encode.
proof fn lemma_enc_overlays(v: WireView, i: int)
    requires
        wire_encodable(v),
        0 <= i <= v.overlays.len(),
        i <= WIRE_MAX_OVERLAYS,
    ensures
        spec_overlays(spec_wire_encode(v), 6 + i) == v.overlays.take(i),
    decreases i,
{
    let enc = spec_wire_encode(v);
    if i == 0 {
        assert(spec_overlays(enc, 6) =~~= v.overlays.take(0));
    } else {
        lemma_enc_overlays(v, i - 1);
        lemma_payload_len(v, 6 + i - 1);
        lemma_enc_field(v, 6 + i - 1);
        assert(spec_flen(enc, 6 + i - 1) > 0);
        assert(spec_field_bytes(enc, 6 + i - 1) == v.overlays[i - 1].push(0).drop_last());
        assert(v.overlays[i - 1].push(0).drop_last() =~= v.overlays[i - 1]);
        assert(v.overlays.take(i) =~= v.overlays.take(i - 1).push(v.overlays[i - 1]));
    }
}

/// Beyond the used overlay slots the parse of an encoded request collects
/// nothing more.
proof fn lemma_overlays_tail(v: WireView, k: int)
    requires
        wire_encodable(v),
        6 + v.overlays.len() <= k <= WIRE_WORDS,
    ensures
        spec_overlays(spec_wire_encode(v), WIRE_WORDS as int) == spec_overlays(
            spec_wire_encode(v),
            k,
        ),
    decreases WIRE_WORDS - k,
{
    if k < WIRE_WORDS {
        lemma_payload_len(v, k);
        assert(spec_flen(spec_wire_encode(v), k) == 0);
        lemma_overlays_tail(v, k + 1);
    }
}

/// Appends the little-endian bytes of `w`.
fn push_word_le(dst: &mut Vec<u8>, w: u32)
    ensures
        final(dst)@ == old(dst)@ + spec_word_le(w),
{
    dst.push((w % 256) as u8);
    dst.push(((w / 256) % 256) as u8);
    dst.push(((w / 65536) % 256) as u8);
    dst.push(((w / 16777216) % 256) as u8);
    proof {
        assert(dst@ =~= old(dst)@ + spec_word_le(w));
    }
}

/// Encodes a request as a wire datagram.
///
/// The result is well formed and decodes back to the very request: together
/// with `req_parse` this is the round trip of the wire format.
#[verifier::loop_isolation(false)]
pub fn req_encode(w: &WireRequest) -> (r: Vec<u8>)
    requires
        wire_encodable(w@),
    ensures
        r@ == spec_wire_encode(w@),
        wire_wf(r@),
        spec_wire_parse(r@) == w@,
{
    let mut words: Vec<u32> = Vec::new();
    words.push(w.app_id);
    words.push(w.uid);
    match w.gid {
        Some(g) => words.push(g),
        None => words.push(0xFFFF_FFFFu32),
    }
    words.push((w.app_pkg_path.len() + 1) as u32);
    words.push((w.app_exec_dir.len() + 1) as u32);
    words.push((w.app_data_dir.len() + 1) as u32);
    let mut i: usize = 0;
    while i < WIRE_MAX_OVERLAYS
        invariant
            0 <= i <= WIRE_MAX_OVERLAYS,
            words@.len() == 6 + i,
            forall|j: int| 0 <= j < 6 + i ==> words@[j] == spec_enc_words(w@)[j],
        decreases WIRE_MAX_OVERLAYS - i,
    {
        if i < w.app_overlay_dirs.len() {
            let ol = &w.app_overlay_dirs[i];
            assert(ol@ == w@.overlays[i as int]);
            words.push((ol.len() + 1) as u32);
        } else {
            words.push(0);
        }
        i = i + 1;
    }
    proof {
        assert(words@ =~= spec_enc_words(w@));
    }

    let mut r: Vec<u8> = Vec::new();
    let mut k: usize = 0;
    while k < WIRE_WORDS
        invariant
            0 <= k <= WIRE_WORDS,
            r@ == spec_words_bytes(words@.take(k as int)),
        decreases WIRE_WORDS - k,
    {
        push_word_le(&mut r, words[k]);
        proof {
            assert(words@.take(k as int + 1).drop_last() =~= words@.take(k as int));
            assert(words@.take(k as int + 1).last() == words@[k as int]);
        }
        k = k + 1;
    }
    proof {
        assert(words@.take(WIRE_WORDS as int) =~= words@);
    }
    let ghost meta = spec_words_bytes(spec_enc_words(w@));

    push_all(&mut r, &w.app_pkg_path);
    r.push(0);
    proof {
        assert(spec_fields_bytes(w@, 3) =~= Seq::<u8>::empty());
        assert(r@ =~= meta + spec_fields_bytes(w@, 4));
    }
    push_all(&mut r, &w.app_exec_dir);
    r.push(0);
    proof {
        assert(r@ =~= meta + spec_fields_bytes(w@, 5));
    }
    push_all(&mut r, &w.app_data_dir);
    r.push(0);
    proof {
        assert(r@ =~= meta + spec_fields_bytes(w@, 6));
    }

    let mut i: usize = 0;
    while i < w.app_overlay_dirs.len()
        invariant
            0 <= i <= w@.overlays.len() <= WIRE_MAX_OVERLAYS,
            r@ == meta + spec_fields_bytes(w@, 6 + i as int),
        decreases w@.overlays.len() - i,
    {
        push_all(&mut r, &w.app_overlay_dirs[i]);
        r.push(0);
        proof {
            assert(w.app_overlay_dirs[i as int]@ == w@.overlays[i as int]);
            assert(r@ =~= meta + spec_fields_bytes(w@, 6 + i as int + 1));
        }
        i = i + 1;
    }
    proof {
        lemma_enc_payload_tail(w@, 6 + w@.overlays.len() as int);
        assert(r@ == spec_wire_encode(w@));
        lemma_wire_roundtrip(w@);
    }
    r
}

/// A well-formed request whose overlay length fields are all zero decodes
/// to an empty overlay list.
pub proof fn lemma_no_overlay_slots(req: Seq<u8>)
    requires
        forall|k: int| 6 <= k < WIRE_WORDS ==> spec_flen(req, k) == 0,
    ensures
        spec_wire_parse(req).overlays == Seq::<Seq<u8>>::empty(),
{
    lemma_no_overlay_slots_upto(req, WIRE_WORDS as int);
}

/// Helper: the overlay list stays empty while every slot is unused.
proof fn lemma_no_overlay_slots_upto(req: Seq<u8>, k: int)
    requires
        6 <= k <= WIRE_WORDS,
        forall|j: int| 6 <= j < WIRE_WORDS ==> spec_flen(req, j) == 0,
    ensures
        spec_overlays(req, k) == Seq::<Seq<u8>>::empty(),
    decreases k,
{
    if k > 6 {
        lemma_no_overlay_slots_upto(req, k - 1);
    }
}

/// Unused overlay slots contribute no payload bytes.
proof fn lemma_enc_payload_tail(v: WireView, k: int)
    requires
        6 + v.overlays.len() <= k <= WIRE_WORDS,
    ensures
        spec_fields_bytes(v, WIRE_WORDS as int) == spec_fields_bytes(v, k),
    decreases WIRE_WORDS - k,
{
    if k < WIRE_WORDS {
        lemma_enc_payload_tail(v, k + 1);
        assert(spec_fields_bytes(v, k + 1) =~= spec_fields_bytes(v, k));
    }
}

} // verus!
