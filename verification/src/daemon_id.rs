//! Short, stable daemon socket identifiers.
//!
//! `remote_server` names unix sockets as
//! `{data}/server_state/{identifier}/stdout.sock`. The identifier plus that
//! prefix must stay under ~100 bytes (sun_path), so the body is 13 characters:
//! `s` and 12 lowercase hex digits of a 64-bit FNV-1a hash. A release-channel
//! prefix such as `nightly-` is added by the caller and still fits.

use vstd::prelude::*;

use crate::text::{hex_digits, is_ascii_hex_digit, lemma_hex_digits_are_hex, lemma_hex_digits_len, push_hex};

verus! {

/// `s` plus 12 hex digits. Release-channel prefixes are added by the caller.
pub const DAEMON_ID_BODY_LEN: usize = 13;

pub const FNV_OFFSET: u64 = 0xcbf29ce484222325;

pub const FNV_PRIME: u64 = 0x100000001b3;

/// Separator mixed in after every part so that `("ab", "c")` and
/// `("a", "bc")` hash apart.
pub const PART_SEPARATOR: u8 = 0xff;

/// One FNV-1a round: xor the byte in, then multiply by the prime modulo 2^64.
pub open spec fn fnv_step(hash: u64, byte: u8) -> u64 {
    (((hash ^ (byte as u64)) as nat * FNV_PRIME as nat) % 0x1_0000_0000_0000_0000nat) as u64
}

/// FNV-1a rounds over `bytes`, starting from `hash`.
pub open spec fn fnv_fold(hash: u64, bytes: Seq<u8>) -> u64
    decreases bytes.len(),
{
    if bytes.len() == 0 {
        hash
    } else {
        fnv_step(fnv_fold(hash, bytes.drop_last()), bytes.last())
    }
}

/// FNV-1a over each part in turn, with `PART_SEPARATOR` after every part.
pub open spec fn fnv_parts(hash: u64, parts: Seq<Seq<u8>>) -> u64
    decreases parts.len(),
{
    if parts.len() == 0 {
        hash
    } else {
        fnv_step(fnv_fold(fnv_parts(hash, parts.drop_last()), parts.last()), PART_SEPARATOR)
    }
}

/// The UTF-8 bytes of each string.
pub open spec fn utf8_parts(parts: Seq<&str>) -> Seq<Seq<u8>> {
    parts.map_values(|part: &str| vstd::utf8::encode_utf8(part@))
}

/// True for `/` and `\`.
pub open spec fn is_separator(c: char) -> bool {
    c == '/' || c == '\\'
}

/// `root` without its trailing `/` and `\` characters.
pub open spec fn trim_separators(root: Seq<char>) -> Seq<char>
    decreases root.len(),
{
    if root.len() > 0 && is_separator(root.last()) {
        trim_separators(root.drop_last())
    } else {
        root
    }
}

/// A project root as it takes part in the identifier: trailing separators
/// are dropped, except that a root of at most one character stays as it is.
pub open spec fn normalized_root(root: Seq<char>) -> Seq<char> {
    if root.len() <= 1 {
        root
    } else {
        trim_separators(root)
    }
}

/// The hash that keys a daemon.
pub open spec fn daemon_hash(transport: Seq<char>, host: Seq<char>, root: Seq<char>) -> u64 {
    fnv_parts(
        FNV_OFFSET,
        seq![
            vstd::utf8::encode_utf8(transport),
            vstd::utf8::encode_utf8(host),
            vstd::utf8::encode_utf8(normalized_root(root)),
        ],
    )
}

/// `s` followed by the low 48 bits of the daemon hash as 12 hex digits.
pub open spec fn daemon_id(transport: Seq<char>, host: Seq<char>, root: Seq<char>) -> Seq<char> {
    seq!['s'] + hex_digits((daemon_hash(transport, host, root) % 0x1_0000_0000_0000) as nat, 12)
}

/// FNV-1a 64 over `parts`, with a separator byte after each part.
pub fn fnv1a64(parts: &[&str]) -> (hash: u64)
    ensures
        hash == fnv_parts(FNV_OFFSET, utf8_parts(parts@)),
{
    let mut hash: u64 = FNV_OFFSET;
    let mut i: usize = 0;
    while i < parts.len()
        invariant
            i <= parts@.len(),
            hash == fnv_parts(FNV_OFFSET, utf8_parts(parts@.take(i as int))),
        decreases parts@.len() - i,
    {
        let bytes = parts[i].as_bytes();
        let ghost start = hash;
        let mut j: usize = 0;
        while j < bytes.len()
            invariant
                j <= bytes@.len(),
                hash == fnv_fold(start, bytes@.take(j as int)),
            decreases bytes@.len() - j,
        {
            hash = (hash ^ (bytes[j] as u64)).wrapping_mul(FNV_PRIME);
            assert(bytes@.take(j + 1).drop_last() =~= bytes@.take(j as int));
            j += 1;
        }
        assert(bytes@.take(bytes@.len() as int) =~= bytes@);
        hash = (hash ^ (PART_SEPARATOR as u64)).wrapping_mul(FNV_PRIME);
        assert(utf8_parts(parts@.take(i + 1)).drop_last() =~= utf8_parts(parts@.take(i as int)));
        assert(utf8_parts(parts@.take(i + 1)).last() == vstd::utf8::encode_utf8(parts@[i as int]@));
        i += 1;
    }
    assert(parts@.take(parts@.len() as int) =~= parts@);
    hash
}

/// `root` without trailing `/` and `\`; roots of at most one character are
/// returned unchanged.
pub fn normalize_project_root(root: &str) -> (r: &str)
    ensures
        r@ == normalized_root(root@),
{
    let n = root.unicode_len();
    if n <= 1 {
        return root;
    }
    let mut end: usize = n;
    let mut done = false;
    assert(root@.take(n as int) =~= root@);
    while !done
        invariant
            end <= root@.len(),
            n == root@.len(),
            trim_separators(root@) == trim_separators(root@.take(end as int)),
            done ==> trim_separators(root@.take(end as int)) == root@.take(end as int),
        decreases end + (if done { 0int } else { 1int }),
    {
        if end == 0 {
            done = true;
        } else {
            let c = root.get_char(end - 1);
            assert(root@.take(end as int).last() == root@[end - 1]);
            if c != '/' && c != '\\' {
                done = true;
            } else {
                assert(root@.take(end as int).drop_last() =~= root@.take(end - 1));
                end -= 1;
            }
        }
    }
    root.substring_char(0, end)
}

/// Socket-name body for a daemon keyed by transport, host and project root:
/// `s` followed by 12 lowercase hex digits (48 bits of FNV-1a). It holds no
/// release-channel prefix.
pub fn daemon_socket_id(transport: &str, host: &str, project_root: &str) -> (id: String)
    ensures
        id@ == daemon_id(transport@, host@, project_root@),
        id@.len() == DAEMON_ID_BODY_LEN,
        id@[0] == 's',
        forall|i: int| 1 <= i < id@.len() ==> is_ascii_hex_digit(#[trigger] id@[i]),
{
    let root = normalize_project_root(project_root);
    let parts = [transport, host, root];
    let hash = fnv1a64(&parts);
    assert(utf8_parts(parts@) =~= seq![
        vstd::utf8::encode_utf8(transport@),
        vstd::utf8::encode_utf8(host@),
        vstd::utf8::encode_utf8(normalized_root(project_root@)),
    ]);
    let low = hash & 0x0000_ffff_ffff_ffff;
    assert(hash & 0x0000_ffff_ffff_ffff == hash % 0x1_0000_0000_0000) by (bit_vector);
    let mut id = String::from_str("s");
    proof {
        reveal_strlit("s");
    }
    push_hex(&mut id, low, 12);
    proof {
        lemma_hex_digits_len(low as nat, 12);
        lemma_hex_digits_are_hex(low as nat, 12);
        assert(id@ =~= daemon_id(transport@, host@, project_root@));
        assert forall|i: int| 1 <= i < id@.len() implies is_ascii_hex_digit(#[trigger] id@[i]) by {
            assert(id@[i] == hex_digits(low as nat, 12)[i - 1]);
        }
    }
    id
}

/// A trailing separator on a project root does not change the daemon id, as
/// long as the root holds at least one character that is not a separator.
pub proof fn lemma_trailing_separator_keeps_id(
    transport: Seq<char>,
    host: Seq<char>,
    root: Seq<char>,
    sep: char,
)
    requires
        is_separator(sep),
        trim_separators(root).len() > 0,
    ensures
        daemon_id(transport, host, root.push(sep)) == daemon_id(transport, host, root),
{
    assert(root.push(sep).drop_last() =~= root);
    assert(normalized_root(root.push(sep)) == trim_separators(root));
    if root.len() <= 1 {
        assert(root.len() == 1);
        if is_separator(root.last()) {
            assert(root.drop_last().len() == 0);
            assert(trim_separators(root.drop_last()) == root.drop_last());
        }
        assert(trim_separators(root) == root);
    }
}

} // verus!
