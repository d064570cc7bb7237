//! A plain hex dump: rows of space-separated hex bytes, padded to the
//! chunk width, followed by a printable-character column.

use vstd::prelude::*;

verus! {

/// The width a plain `hexdump` uses.
pub const DEFAULT_CHUNK_SIZE: usize = 16;

/// The lower-case hex digit for `n`.
pub open spec fn spec_hex_digit(n: u8) -> char
    recommends
        n < 16,
{
    if n < 10 {
        ((n + 0x30) as u8) as char
    } else {
        ((n + 0x57) as u8) as char
    }
}

/// The three characters one byte contributes to the hex column.
pub open spec fn spec_hex_byte(b: u8) -> Seq<char> {
    seq![spec_hex_digit(b / 16), spec_hex_digit(b % 16), ' ']
}

/// The hex column of one chunk.
pub open spec fn spec_hex_cells(chunk: Seq<u8>) -> Seq<char>
    decreases chunk.len(),
{
    if chunk.len() == 0 {
        Seq::empty()
    } else {
        spec_hex_cells(chunk.drop_last()) + spec_hex_byte(chunk.last())
    }
}

/// How one byte shows in the printable column: ASCII alphanumerics stand
/// for themselves, everything else is a dot.
pub open spec fn spec_ascii_cell(b: u8) -> char {
    if (0x30 <= b <= 0x39) || (0x41 <= b <= 0x5a) || (0x61 <= b <= 0x7a) {
        b as char
    } else {
        '.'
    }
}

/// The printable column of one chunk.
pub open spec fn spec_ascii_cells(chunk: Seq<u8>) -> Seq<char>
    decreases chunk.len(),
{
    if chunk.len() == 0 {
        Seq::empty()
    } else {
        spec_ascii_cells(chunk.drop_last()).push(spec_ascii_cell(chunk.last()))
    }
}

/// Three alignment spaces for each of `k` missing bytes of a short final
/// chunk.
pub open spec fn spec_padding(k: int) -> Seq<char>
    decreases k,
{
    if k <= 0 {
        Seq::empty()
    } else {
        spec_padding(k - 1) + seq![' ', ' ', ' ']
    }
}

/// One output row: hex column, padding to the chunk width, a separator,
/// the printable column, and a newline.
pub open spec fn spec_dump_line(chunk: Seq<u8>, chunk_size: int) -> Seq<char> {
    spec_hex_cells(chunk) + spec_padding(chunk_size - chunk.len()) + seq![' ', '|', ' ']
        + spec_ascii_cells(chunk) + seq!['\n']
}

/// The whole dump: one row per `chunk_size` bytes, the last row possibly
/// short.
pub open spec fn spec_hexdump(data: Seq<u8>, chunk_size: int) -> Seq<char>
    recommends
        chunk_size > 0,
    decreases data.len(),
{
    if chunk_size < 1 || data.len() == 0 {
        Seq::empty()
    } else if data.len() <= chunk_size {
        spec_dump_line(data, chunk_size)
    } else {
        spec_dump_line(data.take(chunk_size), chunk_size) + spec_hexdump(
            data.skip(chunk_size),
            chunk_size,
        )
    }
}

/// Relies on `String::push`: appends exactly the given character.
#[verifier::external_body]
fn push_char(s: &mut String, c: char)
    ensures
        final(s)@ == old(s)@.push(c),
{
    s.push(c);
}

/// The lower-case hex digit for `n`.
fn hex_digit(n: u8) -> (c: char)
    requires
        n < 16,
    ensures
        c == spec_hex_digit(n),
{
    if n < 10 {
        (n + 0x30) as char
    } else {
        (n + 0x57) as char
    }
}

/// Renders `data` as rows of `chunk_size` hex bytes beside their printable
/// characters.
#[verifier::loop_isolation(false)]
#[verifier::rlimit(60)]
pub fn hexdump_custom(data: &[u8], chunk_size: usize) -> (r: String)
    requires
        chunk_size > 0,
    ensures
        r@ == spec_hexdump(data@, chunk_size as int),
{
    let mut s = String::new();
    let mut i: usize = 0;
    proof {
        assert(data@.skip(0) =~= data@);
        assert(s@ + spec_hexdump(data@, chunk_size as int) =~= spec_hexdump(
            data@,
            chunk_size as int,
        ));
    }
    while i < data.len()
        invariant
            i <= data@.len(),
            s@ + spec_hexdump(data@.skip(i as int), chunk_size as int) == spec_hexdump(
                data@,
                chunk_size as int,
            ),
        decreases data@.len() - i,
    {
        let ghost s0 = s@;
        let end: usize = if data.len() - i < chunk_size {
            data.len()
        } else {
            i + chunk_size
        };
        let ghost chunk = data@.subrange(i as int, end as int);
        let mut j: usize = i;
        while j < end
            invariant
                i <= j <= end <= data@.len(),
                s@ == s0 + spec_hex_cells(data@.subrange(i as int, j as int)),
            decreases end - j,
        {
            let b = data[j];
            push_char(&mut s, hex_digit(b / 16));
            push_char(&mut s, hex_digit(b % 16));
            push_char(&mut s, ' ');
            proof {
                let pre = data@.subrange(i as int, j as int);
                let cur = data@.subrange(i as int, j + 1);
                assert(cur.drop_last() =~= pre);
                assert(cur.last() == b);
                assert(s@ =~= s0 + spec_hex_cells(cur));
            }
            j = j + 1;
        }
        let ghost s1 = s@;
        let pad_total: usize = chunk_size - (end - i);
        let mut k: usize = 0;
        while k < pad_total
            invariant
                k <= pad_total,
                s@ == s1 + spec_padding(k as int),
            decreases pad_total - k,
        {
            push_char(&mut s, ' ');
            push_char(&mut s, ' ');
            push_char(&mut s, ' ');
            proof {
                assert(s@ =~= s1 + spec_padding(k + 1));
            }
            k = k + 1;
        }
        push_char(&mut s, ' ');
        push_char(&mut s, '|');
        push_char(&mut s, ' ');
        let ghost s2 = s@;
        let mut j: usize = i;
        while j < end
            invariant
                i <= j <= end <= data@.len(),
                s@ == s2 + spec_ascii_cells(data@.subrange(i as int, j as int)),
            decreases end - j,
        {
            let b = data[j];
            let c = if (0x30 <= b && b <= 0x39) || (0x41 <= b && b <= 0x5a) || (0x61 <= b && b
                <= 0x7a) {
                b as char
            } else {
                '.'
            };
            push_char(&mut s, c);
            proof {
                let pre = data@.subrange(i as int, j as int);
                let cur = data@.subrange(i as int, j + 1);
                assert(cur.drop_last() =~= pre);
                assert(cur.last() == b);
                assert(s@ =~= s2 + spec_ascii_cells(cur));
            }
            j = j + 1;
        }
        push_char(&mut s, '\n');
        proof {
            assert(data@.subrange(i as int, j as int) =~= chunk);
            assert(s@ =~= s0 + spec_dump_line(chunk, chunk_size as int));
            let rest = data@.skip(i as int);
            if data@.len() - i <= chunk_size {
                assert(rest =~= chunk);
                assert(spec_hexdump(rest, chunk_size as int) == spec_dump_line(
                    chunk,
                    chunk_size as int,
                ));
                assert(data@.skip(end as int) =~= Seq::<u8>::empty());
            } else {
                assert(rest.take(chunk_size as int) =~= chunk);
                assert(rest.skip(chunk_size as int) =~= data@.skip(end as int));
                assert(spec_hexdump(rest, chunk_size as int) == spec_dump_line(
                    chunk,
                    chunk_size as int,
                ) + spec_hexdump(data@.skip(end as int), chunk_size as int));
            }
            assert(s@ + spec_hexdump(data@.skip(end as int), chunk_size as int) =~= spec_hexdump(
                data@,
                chunk_size as int,
            ));
        }
        i = end;
    }
    proof {
        assert(data@.skip(i as int) =~= Seq::<u8>::empty());
    }
    s
}

/// Renders `data` with the default chunk width.
pub fn hexdump(data: &[u8]) -> (r: String)
    ensures
        r@ == spec_hexdump(data@, DEFAULT_CHUNK_SIZE as int),
{
    hexdump_custom(data, DEFAULT_CHUNK_SIZE)
}

} // verus!
