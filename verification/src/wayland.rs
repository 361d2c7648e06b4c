//! The read-only Wayland registry probe: the two requests it sends and the
//! decoding of the server's replies. Words travel in the host's byte order,
//! which the caller names (`little`). No shell global is bound and no file
//! descriptor is passed.
use crate::text::{utf8_error_text, utf8_string};
use vstd::prelude::*;
use vstd::utf8::{decode_utf8, valid_utf8};

verus! {

/// The little-endian word at `i`.
pub open spec fn le_word(d: Seq<u8>, i: int) -> int {
    d[i] as int + 256 * (d[i + 1] as int) + 65536 * (d[i + 2] as int) + 16777216 * (d[i + 3] as int)
}

/// The big-endian word at `i`.
pub open spec fn be_word(d: Seq<u8>, i: int) -> int {
    16777216 * (d[i] as int) + 65536 * (d[i + 1] as int) + 256 * (d[i + 2] as int) + d[i + 3] as int
}

/// The word at `i` in the host's byte order.
pub open spec fn word(d: Seq<u8>, i: int, little: bool) -> int {
    if little {
        le_word(d, i)
    } else {
        be_word(d, i)
    }
}

/// The size field (upper half of the second header word) of the message at `p`.
pub open spec fn message_size(d: Seq<u8>, p: int, little: bool) -> int {
    if little {
        d[p + 6] as int + 256 * (d[p + 7] as int)
    } else {
        256 * (d[p + 4] as int) + d[p + 5] as int
    }
}

/// The opcode field (lower half of the second header word) of the message at `p`.
pub open spec fn message_opcode(d: Seq<u8>, p: int, little: bool) -> int {
    if little {
        d[p + 4] as int + 256 * (d[p + 5] as int)
    } else {
        256 * (d[p + 6] as int) + d[p + 7] as int
    }
}

pub open spec fn budget_message() -> Seq<char> {
    "Wayland registry exceeded event budget"@
}

pub open spec fn size_message() -> Seq<char> {
    "Invalid Wayland message size"@
}

pub open spec fn protocol_error_message() -> Seq<char> {
    "Wayland server returned a protocol error"@
}

pub open spec fn truncated_event_message() -> Seq<char> {
    "Truncated registry event"@
}

pub open spec fn interface_message() -> Seq<char> {
    "Invalid registry interface string"@
}

pub open spec fn end_of_stream_message() -> Seq<char> {
    "failed to fill whole buffer"@
}

/// `set` with `x` added unless present.
pub open spec fn with_member(set: Seq<Seq<char>>, x: Seq<char>) -> Seq<Seq<char>> {
    if set.contains(x) {
        set
    } else {
        set.push(x)
    }
}

/// Decodes the replies in `d` from offset `p`, after `n` messages that gave
/// the interfaces `globals`: `Ok(Some(..))` at the sync callback's `done`,
/// `Ok(None)` while a message is still incomplete.
pub open spec fn decode(d: Seq<u8>, p: int, n: nat, globals: Seq<Seq<char>>, little: bool) -> Result<
    Option<Seq<Seq<char>>>,
    Seq<char>,
>
    decreases 1024 - n,
{
    if n >= 1024 {
        Err(budget_message())
    } else if p < 0 || p + 8 > d.len() {
        Ok(None)
    } else {
        let size = message_size(d, p, little);
        if size < 8 || size > 65532 || size % 4 != 0 {
            Err(size_message())
        } else if p + size > d.len() {
            Ok(None)
        } else {
            let object = word(d, p, little);
            let opcode = message_opcode(d, p, little);
            if object == 3 && opcode == 0 {
                Ok(Some(globals))
            } else if object == 1 && opcode == 0 {
                Err(protocol_error_message())
            } else if object == 2 && opcode == 0 {
                let body = d.subrange(p + 8, p + size);
                if body.len() < 12 {
                    Err(truncated_event_message())
                } else {
                    let len = word(body, 4, little);
                    if len == 0 || len > body.len() - 12 || body[8 + len - 1] != 0 {
                        Err(interface_message())
                    } else {
                        let name = body.subrange(8, 8 + len - 1);
                        if !valid_utf8(name) {
                            Err(utf8_error_text(name))
                        } else {
                            decode(d, p + size, n + 1, with_member(globals, decode_utf8(name)), little)
                        }
                    }
                }
            } else {
                decode(d, p + size, n + 1, globals, little)
            }
        }
    }
}

/// The requests of the probe: `wl_display.get_registry` (new id 2) and
/// `wl_display.sync` (callback 3).
pub open spec fn request_words() -> Seq<u32> {
    seq![1u32, 0x000c0001u32, 2u32, 1u32, 0x000c0000u32, 3u32]
}

/// The words `w` as bytes, least significant first.
pub open spec fn le_bytes(w: Seq<u32>) -> Seq<u8>
    decreases w.len(),
{
    if w.len() == 0 {
        Seq::empty()
    } else {
        le_bytes(w.drop_last()) + seq![
            (w.last() % 256) as u8,
            ((w.last() / 256) % 256) as u8,
            ((w.last() / 65536) % 256) as u8,
            (w.last() / 16777216) as u8,
        ]
    }
}

/// The words `w` as bytes, most significant first.
pub open spec fn be_bytes(w: Seq<u32>) -> Seq<u8>
    decreases w.len(),
{
    if w.len() == 0 {
        Seq::empty()
    } else {
        be_bytes(w.drop_last()) + seq![
            (w.last() / 16777216) as u8,
            ((w.last() / 65536) % 256) as u8,
            ((w.last() / 256) % 256) as u8,
            (w.last() % 256) as u8,
        ]
    }
}

/// The words `w` as bytes in the host's byte order.
pub open spec fn word_bytes(w: Seq<u32>, little: bool) -> Seq<u8> {
    if little {
        le_bytes(w)
    } else {
        be_bytes(w)
    }
}

/// The bytes the probe writes, in the host's byte order.
pub fn registry_request(little: bool) -> (r: Vec<u8>)
    ensures
        r@ == word_bytes(request_words(), little),
{
    let words: [u32; 6] = [1, 0x000c0001, 2, 1, 0x000c0000, 3];
    let mut r: Vec<u8> = Vec::new();
    let mut i: usize = 0;
    assert(request_words().take(0) =~= Seq::<u32>::empty());
    while i < 6
        invariant
            i <= 6,
            words@ == request_words(),
            little ==> r@ == le_bytes(request_words().take(i as int)),
            !little ==> r@ == be_bytes(request_words().take(i as int)),
        decreases 6 - i,
    {
        let w = words[i];
        if little {
            r.push((w % 256) as u8);
            r.push(((w / 256) % 256) as u8);
            r.push(((w / 65536) % 256) as u8);
            r.push((w / 16777216) as u8);
        } else {
            r.push((w / 16777216) as u8);
            r.push(((w / 65536) % 256) as u8);
            r.push(((w / 256) % 256) as u8);
            r.push((w % 256) as u8);
        }
        proof {
            let t = request_words().take(i + 1);
            assert(t.drop_last() =~= request_words().take(i as int));
            assert(t.last() == w);
        }
        i += 1;
    }
    assert(request_words().take(6) =~= request_words());
    r
}

fn word_at(d: &[u8], i: usize, little: bool) -> (r: u64)
    requires
        i + 4 <= d@.len(),
    ensures
        r as int == word(d@, i as int, little),
{
    if little {
        d[i] as u64 + 256 * (d[i + 1] as u64) + 65536 * (d[i + 2] as u64) + 16777216 * (d[i + 3] as u64)
    } else {
        16777216 * (d[i] as u64) + 65536 * (d[i + 1] as u64) + 256 * (d[i + 2] as u64) + d[i + 3] as u64
    }
}

/// Decodes what the server sent so far: the interface names once the sync
/// callback is done, `None` while a message is incomplete, or why the replies
/// are refused.
pub fn registry_progress(d: &[u8], little: bool) -> (r: Result<Option<Vec<String>>, String>)
    ensures
        match (r, decode(d@, 0, 0, Seq::empty(), little)) {
            (Ok(None), Ok(None)) => true,
            (Ok(Some(v)), Ok(Some(w))) => v.deep_view() == w,
            (Err(e), Err(w)) => e@ == w,
            _ => false,
        },
{
    proof {
        reveal_strlit("Wayland registry exceeded event budget");
        reveal_strlit("Invalid Wayland message size");
        reveal_strlit("Wayland server returned a protocol error");
        reveal_strlit("Truncated registry event");
        reveal_strlit("Invalid registry interface string");
    }
    let mut globals: Vec<String> = Vec::new();
    let mut p: usize = 0;
    let mut n: usize = 0;
    assert(globals.deep_view() =~= Seq::<Seq<char>>::empty());
    while n < 1024
        invariant
            n <= 1024,
            p <= d@.len(),
            decode(d@, p as int, n as nat, globals.deep_view(), little) == decode(d@, 0, 0, Seq::empty(), little),
        decreases 1024 - n,
    {
        if d.len() - p < 8 {
            return Ok(None);
        }
        let size = if little {
            (d[p + 6] as usize) + 256 * (d[p + 7] as usize)
        } else {
            256 * (d[p + 4] as usize) + (d[p + 5] as usize)
        };
        if size < 8 || size > 65532 || size % 4 != 0 {
            return Err("Invalid Wayland message size".to_string());
        }
        if d.len() - p < size {
            return Ok(None);
        }
        let object = word_at(d, p, little);
        let opcode = if little {
            (d[p + 4] as usize) + 256 * (d[p + 5] as usize)
        } else {
            256 * (d[p + 6] as usize) + (d[p + 7] as usize)
        };
        if object == 3 && opcode == 0 {
            return Ok(Some(globals));
        }
        if object == 1 && opcode == 0 {
            return Err("Wayland server returned a protocol error".to_string());
        }
        if object == 2 && opcode == 0 {
            let ghost body = d@.subrange(p + 8, p + size);
            if size - 8 < 12 {
                return Err("Truncated registry event".to_string());
            }
            let len = word_at(d, p + 12, little);
            assert(len == word(body, 4, little)) by {
                assert(body[4] == d@[p + 12]);
                assert(body[5] == d@[p + 13]);
                assert(body[6] == d@[p + 14]);
                assert(body[7] == d@[p + 15]);
            }
            if len == 0 || len > (size - 8 - 12) as u64 {
                return Err("Invalid registry interface string".to_string());
            }
            let last = p + 8 + 8 + (len as usize) - 1;
            assert(body[8 + len - 1] == d@[last as int]);
            if d[last] != 0 {
                return Err("Invalid registry interface string".to_string());
            }
            let mut name: Vec<u8> = Vec::new();
            let mut k = p + 16;
            while k < last
                invariant
                    p + 16 <= k <= last,
                    last < d@.len(),
                    name@ == d@.subrange(p + 16, k as int),
                decreases last - k,
            {
                name.push(d[k]);
                k += 1;
                assert(name@ =~= d@.subrange(p + 16, k as int));
            }
            assert(name@ =~= body.subrange(8, 8 + len - 1));
            match utf8_string(name) {
                Err(e) => {
                    return Err(e);
                },
                Ok(s) => {
                    if !crate::text::contains_string(&globals, s.as_str()) {
                        let ghost before = globals.deep_view();
                        globals.push(s);
                        assert(globals.deep_view() =~= before.push(s@));
                    }
                },
            }
        }
        p = p + size;
        n += 1;
    }
    Err("Wayland registry exceeded event budget".to_string())
}

/// Decodes a complete reply stream: the interface names the registry
/// announced before the sync callback.
pub fn registry(d: &[u8], little: bool) -> (r: Result<Vec<String>, String>)
    ensures
        match (r, decode(d@, 0, 0, Seq::empty(), little)) {
            (Ok(v), Ok(Some(w))) => v.deep_view() == w,
            (Err(e), Ok(None)) => e@ == end_of_stream_message(),
            (Err(e), Err(w)) => e@ == w,
            _ => false,
        },
{
    proof {
        reveal_strlit("failed to fill whole buffer");
    }
    match registry_progress(d, little) {
        Ok(Some(v)) => Ok(v),
        Ok(None) => Err("failed to fill whole buffer".to_string()),
        Err(e) => Err(e),
    }
}

} // verus!
