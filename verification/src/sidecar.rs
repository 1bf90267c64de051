//! The encrypted sidecar file of a snapshot's blob chain: a JSON document
//! rendered byte for byte by the library, sealed with authenticated
//! encryption, and read back by a strict parser.

use crate::chain::{BlobChainManager, BlobChainMetadata};
use crate::errors::StoreError;
use crate::seal::{open_bytes, seal_bytes, sealed_open_of};
use crate::text::{bytes_to_string, dec_bytes, push_dec, push_str_bytes, str_bytes};
use vstd::prelude::*;

verus! {

/// A JSON string escape: quotes and backslashes are prefixed with a
/// backslash, every other byte stands as it is.  The two escaped bytes
/// never occur inside a multi-byte UTF-8 sequence, so escaping byte by
/// byte is sound for any string.
pub open spec fn esc_byte(b: u8) -> Seq<u8> {
    if b == 34 {
        seq![92u8, 34u8]
    } else if b == 92 {
        seq![92u8, 92u8]
    } else {
        seq![b]
    }
}

/// The escaped form of a byte string.
pub open spec fn escape_bytes(s: Seq<u8>) -> Seq<u8>
    decreases s.len(),
{
    if s.len() == 0 {
        Seq::empty()
    } else {
        escape_bytes(s.drop_last()) + esc_byte(s.last())
    }
}

/// A quoted, escaped JSON string.
pub open spec fn quoted(s: String) -> Seq<u8> {
    seq![34u8] + escape_bytes(str_bytes(s@)) + seq![34u8]
}

/// The rendered `chain_order` array body.
pub open spec fn render_order(ids: Seq<String>) -> Seq<u8>
    decreases ids.len(),
{
    if ids.len() == 0 {
        Seq::empty()
    } else if ids.len() == 1 {
        quoted(ids[0])
    } else {
        render_order(ids.drop_last()) + seq![44u8] + quoted(ids.last())
    }
}

/// The rendered `blob_positions` object body: each id mapped to its
/// position in the chain order.
pub open spec fn render_positions(ids: Seq<String>) -> Seq<u8>
    decreases ids.len(),
{
    if ids.len() == 0 {
        Seq::empty()
    } else if ids.len() == 1 {
        quoted(ids[0]) + seq![58u8] + dec_bytes(0)
    } else {
        render_positions(ids.drop_last()) + seq![44u8] + quoted(ids.last()) + seq![58u8]
            + dec_bytes((ids.len() - 1) as nat)
    }
}

/// The rendered `blob_chain_hashes` object body: each id mapped to the
/// chain hash recorded at its position.
pub open spec fn render_hashes(ids: Seq<String>, hashes: Seq<String>) -> Seq<u8>
    decreases ids.len(),
{
    if ids.len() == 0 || ids.len() > hashes.len() {
        Seq::empty()
    } else if ids.len() == 1 {
        quoted(ids[0]) + seq![58u8] + quoted(hashes[0])
    } else {
        render_hashes(ids.drop_last(), hashes.take(ids.len() - 1)) + seq![44u8] + quoted(
            ids.last(),
        ) + seq![58u8] + quoted(hashes[ids.len() - 1])
    }
}

/// The sidecar document: one JSON object holding the chain order, the
/// position index, the chain hashes, the integrity hash and the update
/// time.
pub open spec fn spec_render_sidecar(meta: BlobChainMetadata) -> Seq<u8> {
    str_bytes("{\"chain_order\":["@) + render_order(meta.chain_order@) + str_bytes(
        "],\"blob_positions\":{"@,
    ) + render_positions(meta.chain_order@) + str_bytes("},\"blob_chain_hashes\":{"@)
        + render_hashes(meta.chain_order@, meta.chain_hashes@) + str_bytes(
        "},\"chain_integrity_hash\":"@,
    ) + quoted(meta.chain_integrity_hash) + str_bytes(",\"last_updated\":"@) + quoted(
        meta.last_updated,
    ) + str_bytes("}"@)
}

/// The key seed the sidecar is sealed under: two application constants,
/// hashed into the AES key by the sealing layer.
pub open spec fn spec_key_seed() -> Seq<u8> {
    str_bytes("saveme_config_blob_chain_master_key"@) + str_bytes(
        "application_specific_salt_2024"@,
    )
}

/// The key seed, as bytes.
fn key_seed() -> (r: Vec<u8>)
    ensures
        r@ == spec_key_seed(),
{
    let mut seed: Vec<u8> = Vec::new();
    push_str_bytes(&mut seed, "saveme_config_blob_chain_master_key");
    push_str_bytes(&mut seed, "application_specific_salt_2024");
    seed
}

/// Append a quoted, escaped JSON string.
fn push_json_string(out: &mut Vec<u8>, s: &str)
    ensures
        final(out)@ == old(out)@ + seq![34u8] + escape_bytes(str_bytes(s@)) + seq![34u8],
{
    let ghost start = out@;
    out.push(34);
    let bytes = s.as_bytes();
    let n = bytes.len();
    let mut i: usize = 0;
    while i < n
        invariant
            n == bytes@.len(),
            bytes@ == str_bytes(s@),
            i <= n,
            out@ == start + seq![34u8] + escape_bytes(bytes@.subrange(0, i as int)),
        decreases n - i,
    {
        let b = bytes[i];
        if b == 34 || b == 92 {
            out.push(92);
        }
        out.push(b);
        proof {
            assert(bytes@.subrange(0, i + 1 as int).drop_last() =~= bytes@.subrange(0, i as int));
            assert(bytes@.subrange(0, i + 1 as int).last() == bytes@[i as int]);
            assert(out@ =~= start + seq![34u8] + escape_bytes(bytes@.subrange(0, i + 1 as int)));
        }
        i += 1;
    }
    proof {
        assert(bytes@.subrange(0, n as int) =~= bytes@);
    }
    out.push(34);
    proof {
        assert(out@ =~= start + seq![34u8] + escape_bytes(str_bytes(s@)) + seq![34u8]);
    }
}

impl BlobChainMetadata {
    /// Render the sidecar document.
    pub fn render_sidecar(&self) -> (r: Vec<u8>)
        requires
            self.wf(),
        ensures
            r@ == spec_render_sidecar(*self),
    {
        let mut out: Vec<u8> = Vec::new();
        push_str_bytes(&mut out, "{\"chain_order\":[");

        let n = self.chain_order.len();
        let mut i: usize = 0;
        while i < n
            invariant
                self.wf(),
                n == self.chain_order@.len(),
                i <= n,
                out@ == str_bytes("{\"chain_order\":["@) + render_order(
                    self.chain_order@.subrange(0, i as int),
                ),
            decreases n - i,
        {
            if i > 0 {
                out.push(44);
            }
            push_json_string(&mut out, self.chain_order[i].as_str());
            proof {
                let ids = self.chain_order@;
                assert(ids.subrange(0, i + 1 as int).drop_last() =~= ids.subrange(0, i as int));
                assert(ids.subrange(0, i + 1 as int).last() == ids[i as int]);
                assert(out@ =~= str_bytes("{\"chain_order\":["@) + render_order(
                    ids.subrange(0, i + 1 as int),
                ));
            }
            i += 1;
        }
        proof {
            assert(self.chain_order@.subrange(0, n as int) =~= self.chain_order@);
        }

        push_str_bytes(&mut out, "],\"blob_positions\":{");
        let ghost mark_positions = out@;
        let mut i: usize = 0;
        while i < n
            invariant
                self.wf(),
                n == self.chain_order@.len(),
                i <= n,
                out@ == mark_positions + render_positions(self.chain_order@.subrange(0, i as int)),
            decreases n - i,
        {
            if i > 0 {
                out.push(44);
            }
            push_json_string(&mut out, self.chain_order[i].as_str());
            out.push(58);
            push_dec(&mut out, i as u64);
            proof {
                let ids = self.chain_order@;
                assert(ids.subrange(0, i + 1 as int).drop_last() =~= ids.subrange(0, i as int));
                assert(ids.subrange(0, i + 1 as int).last() == ids[i as int]);
                assert(out@ =~= mark_positions + render_positions(ids.subrange(0, i + 1 as int)));
            }
            i += 1;
        }
        proof {
            assert(self.chain_order@.subrange(0, n as int) =~= self.chain_order@);
        }

        push_str_bytes(&mut out, "},\"blob_chain_hashes\":{");
        let ghost mark_hashes = out@;
        let mut i: usize = 0;
        while i < n
            invariant
                self.wf(),
                n == self.chain_order@.len(),
                i <= n,
                out@ == mark_hashes + render_hashes(
                    self.chain_order@.subrange(0, i as int),
                    self.chain_hashes@.take(i as int),
                ),
            decreases n - i,
        {
            if i > 0 {
                out.push(44);
            }
            push_json_string(&mut out, self.chain_order[i].as_str());
            out.push(58);
            push_json_string(&mut out, self.chain_hashes[i].as_str());
            proof {
                let ids = self.chain_order@;
                let hs = self.chain_hashes@;
                assert(ids.subrange(0, i + 1 as int).drop_last() =~= ids.subrange(0, i as int));
                assert(ids.subrange(0, i + 1 as int).last() == ids[i as int]);
                assert(hs.take(i + 1 as int).take(i as int) =~= hs.take(i as int));
                assert(hs.take(i + 1 as int)[i as int] == hs[i as int]);
                assert(out@ =~= mark_hashes + render_hashes(
                    ids.subrange(0, i + 1 as int),
                    hs.take(i + 1 as int),
                ));
            }
            i += 1;
        }
        proof {
            assert(self.chain_order@.subrange(0, n as int) =~= self.chain_order@);
            assert(self.chain_hashes@.take(n as int) =~= self.chain_hashes@);
        }

        push_str_bytes(&mut out, "},\"chain_integrity_hash\":");
        push_json_string(&mut out, self.chain_integrity_hash.as_str());
        push_str_bytes(&mut out, ",\"last_updated\":");
        push_json_string(&mut out, self.last_updated.as_str());
        push_str_bytes(&mut out, "}");
        proof {
            assert(out@ =~= spec_render_sidecar(*self));
        }
        out
    }
}

/// Read a literal at the cursor; false, with the cursor unmoved, when
/// the bytes differ.
fn expect_lit(bytes: &[u8], pos: &mut usize, lit: &str) -> (r: bool)
    requires
        *old(pos) <= bytes@.len(),
    ensures
        r ==> *final(pos) == *old(pos) + str_bytes(lit@).len() && *final(pos) <= bytes@.len(),
        !r ==> *final(pos) == *old(pos),
{
    let l = lit.as_bytes();
    let n = l.len();
    let start = *pos;
    let blen = bytes.len();
    if n > blen - start {
        return false;
    }
    let mut i: usize = 0;
    while i < n
        invariant
            n == l@.len(),
            blen == bytes@.len(),
            i <= n,
            start == *old(pos),
            *pos == *old(pos),
            start + n <= blen,
        decreases n - i,
    {
        if bytes[start + i] != l[i] {
            return false;
        }
        i += 1;
    }
    *pos = start + n;
    true
}

/// Read a quoted, escaped string at the cursor.  The cursor moves past
/// the closing quote on success and stays put on failure.
fn parse_json_string(bytes: &[u8], pos: &mut usize) -> (r: Option<String>)
    requires
        *old(pos) <= bytes@.len(),
    ensures
        r is Some ==> *old(pos) < *final(pos) <= bytes@.len(),
        r is None ==> *final(pos) == *old(pos),
{
    let n = bytes.len();
    let start = *pos;
    if start >= n || bytes[start] != 34 {
        return None;
    }
    let mut p = start + 1;
    let mut buf: Vec<u8> = Vec::new();
    while p < n
        invariant
            n == bytes@.len(),
            start == *old(pos),
            *pos == *old(pos),
            start < p <= n,
        decreases n - p,
    {
        let b = bytes[p];
        if b == 34 {
            match bytes_to_string(buf) {
                Some(text) => {
                    *pos = p + 1;
                    return Some(text);
                },
                None => {
                    return None;
                },
            }
        }
        if b == 92 {
            if p + 1 >= n {
                return None;
            }
            buf.push(bytes[p + 1]);
            p += 2;
        } else {
            buf.push(b);
            p += 1;
        }
    }
    None
}

/// Skip a decimal number at the cursor; false, with the cursor unmoved,
/// when none stands there.
fn skip_number(bytes: &[u8], pos: &mut usize) -> (r: bool)
    requires
        *old(pos) <= bytes@.len(),
    ensures
        r ==> *old(pos) < *final(pos) <= bytes@.len(),
        !r ==> *final(pos) == *old(pos),
{
    let n = bytes.len();
    let start = *pos;
    let mut p = start;
    while p < n
        invariant
            n == bytes@.len(),
            start == *old(pos),
            *pos == *old(pos),
            start <= p <= n,
        decreases n - p,
    {
        let b = bytes[p];
        if b < 48 || b > 57 {
            if p == start {
                return false;
            }
            *pos = p;
            return true;
        }
        p += 1;
    }
    if p == start {
        return false;
    }
    *pos = p;
    true
}

/// Parse a sidecar document, strictly in the rendered shape.  A document
/// that parses yields a well-formed chain record that renders back to
/// exactly the parsed bytes: the accepted documents are precisely the
/// rendered ones, and parsing inverts rendering on them.
pub(crate) fn parse_sidecar(bytes: &[u8]) -> (r: Result<BlobChainMetadata, StoreError>)
    ensures
        r matches Ok(meta) ==> meta.wf() && bytes@ == spec_render_sidecar(meta),
{
    let mut pos: usize = 0;
    if !expect_lit(bytes, &mut pos, "{\"chain_order\":[") {
        return Err(StoreError::Sidecar);
    }

    let mut chain_order: Vec<String> = Vec::new();
    if !expect_lit(bytes, &mut pos, "]") {
        let mut more = true;
        while more
            invariant
                pos <= bytes@.len(),
            decreases bytes@.len() - pos + (if more {
                1int
            } else {
                0int
            }),
        {
            match parse_json_string(bytes, &mut pos) {
                Some(s) => chain_order.push(s),
                None => {
                    return Err(StoreError::Sidecar);
                },
            }
            if expect_lit(bytes, &mut pos, ",") {
                // Another id follows.
            } else if expect_lit(bytes, &mut pos, "]") {
                more = false;
            } else {
                return Err(StoreError::Sidecar);
            }
        }
    }

    if !expect_lit(bytes, &mut pos, ",\"blob_positions\":{") {
        return Err(StoreError::Sidecar);
    }
    let count = chain_order.len();
    let mut i: usize = 0;
    while i < count
        invariant
            i <= count,
            pos <= bytes@.len(),
        decreases count - i,
    {
        if i > 0 && !expect_lit(bytes, &mut pos, ",") {
            return Err(StoreError::Sidecar);
        }
        match parse_json_string(bytes, &mut pos) {
            Some(_) => {},
            None => {
                return Err(StoreError::Sidecar);
            },
        }
        if !expect_lit(bytes, &mut pos, ":") {
            return Err(StoreError::Sidecar);
        }
        if !skip_number(bytes, &mut pos) {
            return Err(StoreError::Sidecar);
        }
        i += 1;
    }

    if !expect_lit(bytes, &mut pos, "},\"blob_chain_hashes\":{") {
        return Err(StoreError::Sidecar);
    }
    let mut chain_hashes: Vec<String> = Vec::new();
    let mut i: usize = 0;
    while i < count
        invariant
            i <= count,
            count == chain_order@.len(),
            chain_hashes@.len() == i,
            pos <= bytes@.len(),
        decreases count - i,
    {
        if i > 0 && !expect_lit(bytes, &mut pos, ",") {
            return Err(StoreError::Sidecar);
        }
        match parse_json_string(bytes, &mut pos) {
            Some(_) => {},
            None => {
                return Err(StoreError::Sidecar);
            },
        }
        if !expect_lit(bytes, &mut pos, ":") {
            return Err(StoreError::Sidecar);
        }
        match parse_json_string(bytes, &mut pos) {
            Some(h) => chain_hashes.push(h),
            None => {
                return Err(StoreError::Sidecar);
            },
        }
        i += 1;
    }

    if !expect_lit(bytes, &mut pos, "},\"chain_integrity_hash\":") {
        return Err(StoreError::Sidecar);
    }
    let chain_integrity_hash = match parse_json_string(bytes, &mut pos) {
        Some(s) => s,
        None => {
            return Err(StoreError::Sidecar);
        },
    };
    if !expect_lit(bytes, &mut pos, ",\"last_updated\":") {
        return Err(StoreError::Sidecar);
    }
    let last_updated = match parse_json_string(bytes, &mut pos) {
        Some(s) => s,
        None => {
            return Err(StoreError::Sidecar);
        },
    };
    if !expect_lit(bytes, &mut pos, "}") {
        return Err(StoreError::Sidecar);
    }

    let meta = BlobChainMetadata { chain_order, chain_hashes, chain_integrity_hash, last_updated };

    // The scan accepted the document's shape; re-rendering the record and
    // comparing pins the parse down to an exact inverse of the renderer.
    let rendered = meta.render_sidecar();
    let stored = crate::text::clone_bytes_from_slice(bytes);
    if !crate::text::bytes_equal(&rendered, &stored) {
        return Err(StoreError::Sidecar);
    }
    Ok(meta)
}

impl BlobChainManager {
    /// The sealed sidecar bytes recording this chain, for the caller to
    /// write at `get_metadata_path`.
    pub fn export_sidecar(&self) -> (r: Result<Vec<u8>, StoreError>)
        requires
            self.metadata.wf(),
        ensures
            r matches Ok(sealed) ==> sealed_open_of(spec_key_seed(), sealed@) == Some(
                spec_render_sidecar(self.metadata),
            ),
            r matches Err(e) ==> e == StoreError::Crypto,
    {
        let plain = self.metadata.render_sidecar();
        let seed = key_seed();
        seal_bytes(seed.as_slice(), plain.as_slice())
    }

    /// Open stored sidecar bytes and adopt the chain they record.  On any
    /// failure the chain in memory is left as it was.
    pub fn import_sidecar(&mut self, sealed: &[u8]) -> (r: Result<(), StoreError>)
        ensures
            final(self).storage_dir == old(self).storage_dir,
            final(self).backup_name == old(self).backup_name,
            r is Ok ==> final(self).metadata.wf() && sealed_open_of(spec_key_seed(), sealed@)
                == Some(spec_render_sidecar(final(self).metadata)),
            r is Err ==> final(self).metadata == old(self).metadata,
            sealed_open_of(spec_key_seed(), sealed@) is None ==> (r matches Err(e) && e
                == StoreError::Crypto),
    {
        let seed = key_seed();
        let plain = match open_bytes(seed.as_slice(), sealed) {
            Ok(p) => p,
            Err(e) => {
                return Err(e);
            },
        };
        match parse_sidecar(plain.as_slice()) {
            Ok(meta) => {
                self.metadata = meta;
                Ok(())
            },
            Err(e) => Err(e),
        }
    }
}

} // verus!
