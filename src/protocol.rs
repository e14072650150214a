use vstd::prelude::*;

use crate::eink::EInkResponse;

verus! {

/// Largest number of payload bytes written in one piece.
pub const CHUNK_SIZE: usize = 1000;

/// Pause between two payload pieces, in milliseconds.
pub const CHUNK_DELAY_MS: u64 = 30;

/// The line terminator of commands and replies: carriage return, line feed.
pub open spec fn crlf() -> Seq<u8> {
    seq![13u8, 10u8]
}

/// Sum of all bytes, as an unbounded number.
pub open spec fn byte_sum(s: Seq<u8>) -> nat
    decreases s.len(),
{
    if s.len() == 0 {
        0
    } else {
        byte_sum(s.drop_last()) + s.last() as nat
    }
}

/// The 8-bit wraparound sum of a payload.
pub open spec fn checksum_of(s: Seq<u8>) -> nat {
    byte_sum(s) % 256
}

/// The checksum announced before an image transfer: the sum of all bytes modulo 256.
pub fn checksum(data: &[u8]) -> (r: u8)
    ensures
        r as nat == checksum_of(data@),
{
    let mut acc: u8 = 0;
    let mut i: usize = 0;
    while i < data.len()
        invariant
            0 <= i <= data@.len(),
            acc as nat == byte_sum(data@.subrange(0, i as int)) % 256,
        decreases data@.len() - i,
    {
        let next: u16 = (acc as u16 + data[i] as u16) % 256;
        proof {
            let pre = data@.subrange(0, i as int);
            let post = data@.subrange(0, i as int + 1);
            assert(post.drop_last() =~= pre);
            assert(post.last() == data@[i as int]);
            vstd::arithmetic::div_mod::lemma_add_mod_noop(
                byte_sum(pre) as int,
                data@[i as int] as int,
                256,
            );
            vstd::arithmetic::div_mod::lemma_small_mod(data@[i as int] as nat, 256);
        }
        acc = next as u8;
        i = i + 1;
    }
    assert(data@.subrange(0, data@.len() as int) =~= data@);
    acc
}

/// Number of pieces of at most `size` bytes that `len` bytes are cut into.
pub open spec fn chunk_count(len: nat, size: nat) -> nat
    recommends
        size > 0,
{
    ((len + size - 1) as nat) / size
}

/// The `i`-th piece of `data` when cut into pieces of `size` bytes.
pub open spec fn chunk_at(data: Seq<u8>, size: nat, i: nat) -> Seq<u8> {
    let start = i * size;
    let end = if (i + 1) * size <= data.len() {
        (i + 1) * size
    } else {
        data.len()
    };
    data.subrange(start as int, end as int)
}

/// The first `n` pieces, joined back together.
pub open spec fn joined_chunks(data: Seq<u8>, size: nat, n: nat) -> Seq<u8>
    decreases n,
{
    if n == 0 {
        Seq::empty()
    } else {
        joined_chunks(data, size, (n - 1) as nat) + chunk_at(data, size, (n - 1) as nat)
    }
}

proof fn lemma_joined_prefix(data: Seq<u8>, size: nat, n: nat)
    requires
        size > 0,
        n * size <= data.len(),
    ensures
        joined_chunks(data, size, n) == data.subrange(0, (n * size) as int),
    decreases n,
{
    if n > 0 {
        let m = (n - 1) as nat;
        assert(m * size + size == n * size && (m + 1) * size == n * size) by (nonlinear_arith)
            requires
                m == n - 1,
        ;
        assert(m * size <= n * size) by (nonlinear_arith)
            requires
                m * size + size == n * size,
                size > 0,
        ;
        lemma_joined_prefix(data, size, m);
        assert(chunk_at(data, size, m) == data.subrange((m * size) as int, (n * size) as int));
        assert(joined_chunks(data, size, n) == joined_chunks(data, size, m) + chunk_at(
            data,
            size,
            m,
        ));
        assert(data.subrange(0, (m * size) as int) + data.subrange(
            (m * size) as int,
            (n * size) as int,
        ) =~= data.subrange(0, (n * size) as int));
    } else {
        assert(n * size == 0) by (nonlinear_arith)
            requires
                n == 0,
        ;
        assert(data.subrange(0, 0) =~= Seq::<u8>::empty());
    }
}

/// Cutting a payload into pieces of `size` bytes and joining the pieces in
/// order gives the payload back exactly.
pub proof fn lemma_chunks_reassemble(data: Seq<u8>, size: nat)
    requires
        size > 0,
    ensures
        joined_chunks(data, size, chunk_count(data.len(), size)) == data,
{
    let n = chunk_count(data.len(), size);
    let len = data.len();
    if len == 0 {
        assert(n == 0) by (nonlinear_arith)
            requires
                n == ((len + size - 1) as nat) / size,
                len == 0,
                size > 0,
        ;
    } else {
        assert(n >= 1 && (n - 1) * size < len && len <= n * size) by (nonlinear_arith)
            requires
                n == ((len + size - 1) as nat) / size,
                len > 0,
                size > 0,
        ;
        let m = (n - 1) as nat;
        assert((m + 1) * size == n * size) by (nonlinear_arith)
            requires
                m == n - 1,
        ;
        assert(m * size + size == n * size) by (nonlinear_arith)
            requires
                m == n - 1,
        ;
        lemma_joined_prefix(data, size, m);
        assert(data.subrange(0, (m * size) as int) + data.subrange((m * size) as int, len as int)
            =~= data);
    }
}

/// Cuts a payload into consecutive pieces of `size` bytes; the last one may be shorter.
pub fn split_chunks(data: &[u8], size: usize) -> (r: Vec<Vec<u8>>)
    requires
        size > 0,
    ensures
        r@.len() == chunk_count(data@.len(), size as nat),
        forall|i: int| 0 <= i < r@.len() ==> #[trigger] r@[i]@ == chunk_at(data@, size as nat, i as nat),
{
    let len: usize = data.len();
    let q: usize = len / size;
    assert(len % size != 0 ==> q < len) by (nonlinear_arith)
        requires
            q == len / size,
            size > 0,
    ;
    let count: usize = if len % size != 0 { q + 1 } else { q };
    proof {
        let c = chunk_count(len as nat, size as nat);
        assert(count == c) by (nonlinear_arith)
            requires
                c == ((len + size - 1) as nat) / (size as nat),
                count == len / size + if len % size != 0 { 1int } else { 0int },
                size > 0,
        ;
    }
    let mut r: Vec<Vec<u8>> = Vec::new();
    let mut i: usize = 0;
    while i < count
        invariant
            size > 0,
            len == data@.len(),
            count == chunk_count(len as nat, size as nat),
            count == len / size + if len % size != 0 { 1int } else { 0int },
            0 <= i <= count,
            r@.len() == i,
            forall|j: int| 0 <= j < r@.len() ==> #[trigger] r@[j]@ == chunk_at(data@, size as nat, j as nat),
        decreases count - i,
    {
        assert(i * size < len && i * size + size == (i + 1) * size) by (nonlinear_arith)
            requires
                i < count,
                count == len / size + if len % size != 0 { 1int } else { 0int },
                size > 0,
        ;
        let start: usize = i * size;
        let remaining: usize = len - start;
        let take: usize = if remaining < size { remaining } else { size };
        let mut piece: Vec<u8> = Vec::new();
        let mut k: usize = 0;
        while k < take
            invariant
                take <= remaining,
                remaining == data@.len() - start,
                len == data@.len(),
                start + take <= len,
                start < data@.len(),
                0 <= k <= take,
                piece@ == data@.subrange(start as int, start + k),
            decreases take - k,
        {
            piece.push(data[start + k]);
            proof {
                assert(data@.subrange(start as int, start + k + 1) =~= data@.subrange(
                    start as int,
                    start + k,
                ).push(data@[start + k]));
            }
            k = k + 1;
        }
        assert(piece@ == chunk_at(data@, size as nat, i as nat));
        r.push(piece);
        i = i + 1;
    }
    r
}


/// Decimal digits of a number, most significant first, in ASCII.
pub open spec fn decimal(n: nat) -> Seq<u8>
    decreases n,
{
    if n < 10 {
        seq![(48 + n) as u8]
    } else {
        decimal(n / 10) + seq![(48 + n % 10) as u8]
    }
}

/// The ASCII digit of a flag: `1` for true, `0` for false.
pub open spec fn flag(b: bool) -> Seq<u8> {
    if b {
        seq![49u8]
    } else {
        seq![48u8]
    }
}

/// `AT+IMG=`
pub open spec fn img_prefix() -> Seq<u8> {
    seq![65u8, 84, 43, 73, 77, 71, 61]
}

/// `AT+SHOW=`
pub open spec fn show_prefix() -> Seq<u8> {
    seq![65u8, 84, 43, 83, 72, 79, 87, 61]
}

/// `AT+LED=`
pub open spec fn led_prefix() -> Seq<u8> {
    seq![65u8, 84, 43, 76, 69, 68, 61]
}

/// `AT+READY=`
pub open spec fn ready_prefix() -> Seq<u8> {
    seq![65u8, 84, 43, 82, 69, 65, 68, 89, 61]
}

/// A single space.
pub open spec fn space() -> Seq<u8> {
    seq![32u8]
}

/// `AT+IMG=<withRed> <x> <y> <w> <h> <checksum>` and the terminator.
pub open spec fn img_command_of(with_red: bool, x: u32, y: u32, w: u32, h: u32, sum: u8) -> Seq<u8> {
    img_prefix() + flag(with_red) + space() + decimal(x as nat) + space() + decimal(y as nat)
        + space() + decimal(w as nat) + space() + decimal(h as nat) + space() + decimal(
        sum as nat,
    ) + crlf()
}

/// `AT+SHOW=<fullRefresh> <border>` and the terminator.
pub open spec fn show_command_of(full_refresh: bool, border: bool) -> Seq<u8> {
    show_prefix() + flag(full_refresh) + space() + flag(border) + crlf()
}

/// `AT+LED=<value>` and the terminator.
pub open spec fn led_command_of(value: u8) -> Seq<u8> {
    led_prefix() + decimal(value as nat) + crlf()
}

/// `AT+READY=` and the terminator.
pub open spec fn ready_command_of() -> Seq<u8> {
    ready_prefix() + crlf()
}

fn push_decimal(out: &mut Vec<u8>, n: u32)
    ensures
        final(out)@ == old(out)@ + decimal(n as nat),
    decreases n,
{
    if n >= 10 {
        push_decimal(out, n / 10);
    }
    out.push(48 + (n % 10) as u8);
    proof {
        if n >= 10 {
            assert(old(out)@ + decimal((n / 10) as nat) + seq![(48 + n % 10) as u8] =~= old(out)@
                + decimal(n as nat));
        } else {
            assert(old(out)@ + seq![(48 + n) as u8] =~= old(out)@ + decimal(n as nat));
        }
    }
}

fn push_flag(out: &mut Vec<u8>, b: bool)
    ensures
        final(out)@ == old(out)@ + flag(b),
{
    out.push(if b { 49u8 } else { 48u8 });
    assert(final(out)@ =~= old(out)@ + flag(b));
}

fn push_space(out: &mut Vec<u8>)
    ensures
        final(out)@ == old(out)@ + space(),
{
    out.push(32u8);
    assert(final(out)@ =~= old(out)@ + space());
}

fn push_crlf(out: &mut Vec<u8>)
    ensures
        final(out)@ == old(out)@ + crlf(),
{
    out.push(13u8);
    out.push(10u8);
    assert(final(out)@ =~= old(out)@ + crlf());
}

fn at_prefix() -> (r: Vec<u8>)
    ensures
        r@ == seq![65u8, 84, 43],
{
    let mut r: Vec<u8> = Vec::new();
    r.push(65u8);
    r.push(84u8);
    r.push(43u8);
    assert(r@ =~= seq![65u8, 84, 43]);
    r
}

/// Announces an image transfer: where the image goes, whether a red plane
/// follows, and the checksum of the payload.
pub fn img_command(with_red: bool, x: u32, y: u32, w: u32, h: u32, sum: u8) -> (r: Vec<u8>)
    ensures
        r@ == img_command_of(with_red, x, y, w, h, sum),
{
    let mut r = at_prefix();
    r.push(73u8);
    r.push(77u8);
    r.push(71u8);
    r.push(61u8);
    assert(r@ =~= img_prefix());
    push_flag(&mut r, with_red);
    push_space(&mut r);
    push_decimal(&mut r, x);
    push_space(&mut r);
    push_decimal(&mut r, y);
    push_space(&mut r);
    push_decimal(&mut r, w);
    push_space(&mut r);
    push_decimal(&mut r, h);
    push_space(&mut r);
    push_decimal(&mut r, sum as u32);
    push_crlf(&mut r);
    r
}

/// Commits the transferred image to the panel.
pub fn show_command(full_refresh: bool, border: bool) -> (r: Vec<u8>)
    ensures
        r@ == show_command_of(full_refresh, border),
{
    let mut r = at_prefix();
    r.push(83u8);
    r.push(72u8);
    r.push(79u8);
    r.push(87u8);
    r.push(61u8);
    assert(r@ =~= show_prefix());
    push_flag(&mut r, full_refresh);
    push_space(&mut r);
    push_flag(&mut r, border);
    push_crlf(&mut r);
    r
}

/// Sets the panel's indicator light.
pub fn led_command(value: u8) -> (r: Vec<u8>)
    ensures
        r@ == led_command_of(value),
{
    let mut r = at_prefix();
    r.push(76u8);
    r.push(69u8);
    r.push(68u8);
    r.push(61u8);
    assert(r@ =~= led_prefix());
    push_decimal(&mut r, value as u32);
    push_crlf(&mut r);
    r
}

/// Asks whether the panel is ready.
pub fn ready_command() -> (r: Vec<u8>)
    ensures
        r@ == ready_command_of(),
{
    let mut r = at_prefix();
    r.push(82u8);
    r.push(69u8);
    r.push(65u8);
    r.push(68u8);
    r.push(89u8);
    r.push(61u8);
    assert(r@ =~= ready_prefix());
    push_crlf(&mut r);
    r
}

/// A payload piece as written on the wire: its bytes, then the terminator.
pub fn frame_chunk(chunk: &[u8]) -> (r: Vec<u8>)
    ensures
        r@ == chunk@ + crlf(),
{
    let mut r: Vec<u8> = Vec::new();
    let mut i: usize = 0;
    while i < chunk.len()
        invariant
            0 <= i <= chunk@.len(),
            r@ == chunk@.subrange(0, i as int),
        decreases chunk@.len() - i,
    {
        r.push(chunk[i]);
        assert(chunk@.subrange(0, i + 1) =~= chunk@.subrange(0, i as int).push(chunk@[i as int]));
        i = i + 1;
    }
    assert(chunk@.subrange(0, chunk@.len() as int) =~= chunk@);
    push_crlf(&mut r);
    r
}

/// `p` occurs in `s` at position `i`.
pub open spec fn occurs_at(s: Seq<u8>, p: Seq<u8>, i: int) -> bool {
    0 <= i && i + p.len() <= s.len() && s.subrange(i, i + p.len()) == p
}

/// `p` occurs somewhere in `s`.
pub open spec fn contains_seq(s: Seq<u8>, p: Seq<u8>) -> bool {
    exists|i: int| occurs_at(s, p, i)
}

fn occurs_here(s: &[u8], p: &[u8], i: usize) -> (r: bool)
    requires
        i + p@.len() <= s@.len(),
    ensures
        r == occurs_at(s@, p@, i as int),
{
    let n: usize = s.len();
    let mut k: usize = 0;
    while k < p.len()
        invariant
            n == s@.len(),
            i + p@.len() <= n,
            0 <= k <= p@.len(),
            forall|j: int| 0 <= j < k ==> s@[i + j] == p@[j],
        decreases p@.len() - k,
    {
        if s[i + k] != p[k] {
            assert(s@.subrange(i as int, i + p@.len())[k as int] != p@[k as int]);
            return false;
        }
        k = k + 1;
    }
    assert(s@.subrange(i as int, i + p@.len()) =~= p@);
    true
}

/// Whether `p` occurs in `s`.
pub fn contains_bytes(s: &[u8], p: &[u8]) -> (r: bool)
    ensures
        r == contains_seq(s@, p@),
{
    if p.len() > s.len() {
        return false;
    }
    let last: usize = s.len() - p.len();
    let mut i: usize = 0;
    while i < last
        invariant
            last == s@.len() - p@.len(),
            0 <= i <= last,
            forall|j: int| 0 <= j < i ==> !occurs_at(s@, p@, j),
        decreases last - i,
    {
        if occurs_here(s, p, i) {
            return true;
        }
        i = i + 1;
    }
    occurs_here(s, p, last)
}

/// `OK`
pub open spec fn ok_marker() -> Seq<u8> {
    seq![79u8, 75]
}

/// `BUSY`
pub open spec fn busy_marker() -> Seq<u8> {
    seq![66u8, 85, 83, 89]
}

/// How a panel reply is read: one that holds `OK` is success, one that
/// holds `BUSY` a transient busy signal, anything else an error.
pub open spec fn classify_of(reply: Seq<u8>) -> EInkResponse {
    if contains_seq(reply, ok_marker()) {
        EInkResponse::OK
    } else if contains_seq(reply, busy_marker()) {
        EInkResponse::Busy
    } else {
        EInkResponse::Error
    }
}

/// Classifies a reply read from the panel.
pub fn classify_reply(reply: &[u8]) -> (r: EInkResponse)
    ensures
        r == classify_of(reply@),
{
    let ok: [u8; 2] = [79u8, 75];
    let busy: [u8; 4] = [66u8, 85, 83, 89];
    assert(ok@ =~= ok_marker());
    assert(busy@ =~= busy_marker());
    if contains_bytes(reply, ok.as_slice()) {
        EInkResponse::OK
    } else if contains_bytes(reply, busy.as_slice()) {
        EInkResponse::Busy
    } else {
        EInkResponse::Error
    }
}

/// Whether a reply read so far is complete: it ends with the terminator.
pub fn reply_complete(reply: &[u8]) -> (r: bool)
    ensures
        r == (reply@.len() >= 2 && reply@.subrange(reply@.len() - 2, reply@.len() as int) == crlf()),
{
    let n = reply.len();
    if n < 2 {
        return false;
    }
    let done = reply[n - 2] == 13u8 && reply[n - 1] == 10u8;
    assert(done == (reply@.subrange(n - 2, n as int) =~= crlf()));
    done
}

} // verus!
