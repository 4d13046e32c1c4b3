use vstd::prelude::*;
use vstd::arithmetic::div_mod::lemma_fundamental_div_mod_converse;
use byteorder::ByteOrder;
use crate::tokens::{request_token, response_token, RequestType, ResponseType};
use crate::text::{int_text, push_int_text};

verus! {

/// The eight bytes of `n`, most significant first.
pub open spec fn be_bytes(n: u64) -> Seq<u8> {
    seq![(n >> 56u64) as u8, (n >> 48u64) as u8, (n >> 40u64) as u8, (n >> 32u64) as u8,
        (n >> 24u64) as u8, (n >> 16u64) as u8, (n >> 8u64) as u8, n as u8]
}

/// The word whose bytes, most significant first, are `b[0..8]`.
pub open spec fn be_value(b: Seq<u8>) -> u64 {
    (b[0] as u64) << 56u64 | (b[1] as u64) << 48u64 | (b[2] as u64) << 40u64 | (b[3] as u64) << 32u64
        | (b[4] as u64) << 24u64 | (b[5] as u64) << 16u64 | (b[6] as u64) << 8u64 | (b[7] as u64)
}

/// The word whose bytes, least significant first, are `b[0..8]`.
pub open spec fn le_value(b: Seq<u8>) -> u64 {
    (b[7] as u64) << 56u64 | (b[6] as u64) << 48u64 | (b[5] as u64) << 40u64 | (b[4] as u64) << 32u64
        | (b[3] as u64) << 24u64 | (b[2] as u64) << 16u64 | (b[1] as u64) << 8u64 | (b[0] as u64)
}

/// Relies on byteorder's `BigEndian::write_u64`: it stores `n` in eight
/// bytes, most significant first.
#[verifier::external_body]
fn be_encode_u64(n: u64) -> (r: Vec<u8>)
    ensures
        r@ == be_bytes(n),
{
    let mut buf = [0u8; 8];
    byteorder::BigEndian::write_u64(&mut buf, n);
    buf.to_vec()
}

/// Relies on byteorder's `BigEndian::read_u64`: it reads the eight bytes at
/// `at`, most significant first (it panics on fewer than eight).
#[verifier::external_body]
fn be_decode_u64(b: &[u8], at: usize) -> (r: u64)
    requires
        at + 8 <= b@.len(),
    ensures
        r == be_value(b@.subrange(at as int, at + 8)),
{
    byteorder::BigEndian::read_u64(&b[at..at + 8])
}

/// Relies on byteorder's `LittleEndian::read_u64`: it reads the eight bytes
/// at `at`, least significant first (it panics on fewer than eight).
#[verifier::external_body]
fn le_decode_u64(b: &[u8], at: usize) -> (r: u64)
    requires
        at + 8 <= b@.len(),
    ensures
        r == le_value(b@.subrange(at as int, at + 8)),
{
    byteorder::LittleEndian::read_u64(&b[at..at + 8])
}

/// Reading back the big-endian bytes of a word gives the word.
pub proof fn lemma_be_round_trip(n: u64)
    ensures
        be_value(be_bytes(n)) == n,
{
    assert(((n >> 56u64) as u8 as u64) << 56u64 | ((n >> 48u64) as u8 as u64) << 48u64
        | ((n >> 40u64) as u8 as u64) << 40u64 | ((n >> 32u64) as u8 as u64) << 32u64
        | ((n >> 24u64) as u8 as u64) << 24u64 | ((n >> 16u64) as u8 as u64) << 16u64
        | ((n >> 8u64) as u8 as u64) << 8u64 | (n as u8 as u64) == n) by (bit_vector);
}

} // verus!

verus! {

/// A square grid of 64-bit cells, each the bit pattern of an IEEE-754 double.
pub struct Matrix {
    pub size: usize,
    pub data: Vec<Vec<u64>>,
}

/// The rows of a grid as sequences.
pub open spec fn rows_of(d: Seq<Vec<u64>>) -> Seq<Seq<u64>> {
    d.map_values(|r: Vec<u64>| r@)
}

/// `m` has `n` rows of `n` cells each.
pub open spec fn is_square(m: Seq<Seq<u64>>, n: nat) -> bool {
    m.len() == n && forall|i: int| 0 <= i < n ==> (#[trigger] m[i]).len() == n
}

/// Byte `p` of the big-endian row-major encoding of `m`.
pub open spec fn be_byte_at(m: Seq<Seq<u64>>, n: nat, p: int) -> u8 {
    be_bytes(m[(p / 8) / n as int][(p / 8) % n as int])[p % 8]
}

/// The big-endian row-major encoding of an `n` by `n` grid, with no
/// delimiters.
pub open spec fn encode_be(m: Seq<Seq<u64>>, n: nat) -> Seq<u8> {
    Seq::new(n * n * 8, |p: int| be_byte_at(m, n, p))
}

/// The eight bytes of cell `k` of a row-major byte image.
pub open spec fn cell_bytes(b: Seq<u8>, k: int) -> Seq<u8> {
    b.subrange(k * 8, k * 8 + 8)
}

/// The `n` by `n` grid that a row-major byte image holds, each cell read
/// least significant byte first when `little`, else most significant first.
pub open spec fn decode_cells(b: Seq<u8>, n: nat, little: bool) -> Seq<Seq<u64>> {
    Seq::new(n, |i: int| Seq::new(n, |j: int|
        if little { le_value(cell_bytes(b, i * n + j)) } else { be_value(cell_bytes(b, i * n + j)) }))
}

impl Matrix {
    pub open spec fn view(&self) -> Seq<Seq<u64>> {
        rows_of(self.data@)
    }

    pub open spec fn wf(&self) -> bool {
        is_square(self@, self.size as nat)
    }

    /// Wraps rows as a matrix whose size is the number of rows.
    pub fn from_data(data: Vec<Vec<u64>>) -> (r: Matrix)
        ensures
            r.size == data@.len(),
            r@ == rows_of(data@),
    {
        let size = data.len();
        Matrix { size, data }
    }

    /// Whether every row has as many cells as there are rows.
    pub fn check_square(&self) -> (r: bool)
        ensures
            r == is_square(self@, self.data@.len() as nat),
    {
        let n = self.data.len();
        let mut i: usize = 0;
        while i < n
            invariant
                n == self.data@.len(),
                i <= n,
                forall|k: int| 0 <= k < i ==> (#[trigger] self@[k]).len() == n,
            decreases n - i,
        {
            if self.data[i].len() != n {
                assert(self@[i as int].len() != n);
                return false;
            }
            i = i + 1;
        }
        true
    }
}

proof fn lemma_cell_index(n: nat, i: int, j: int, t: int)
    requires
        0 <= i < n,
        0 <= j < n,
        0 <= t < 8,
    ensures
        ((i * n + j) * 8 + t) / 8 == i * n + j,
        ((i * n + j) * 8 + t) % 8 == t,
        (i * n + j) / n as int == i,
        (i * n + j) % n as int == j,
        0 <= i * n + j < n * n,
{
    lemma_fundamental_div_mod_converse((i * n + j) * 8 + t, 8, i * n + j, t);
    lemma_fundamental_div_mod_converse(i * n + j, n as int, i, j);
    assert(0 <= i * n + j < n * n) by (nonlinear_arith)
        requires 0 <= i < n, 0 <= j < n;
}

/// Decoding the big-endian encoding of a square grid, reading cells most
/// significant byte first, gives back every cell bit for bit.
pub proof fn lemma_matrix_round_trip(m: Seq<Seq<u64>>, n: nat)
    requires
        is_square(m, n),
    ensures
        decode_cells(encode_be(m, n), n, false) == m,
{
    let b = encode_be(m, n);
    let d = decode_cells(b, n, false);
    assert forall|i: int, j: int| 0 <= i < n && 0 <= j < n implies d[i][j] == m[i][j] by {
        lemma_cell_index(n, i, j, 0);
        assert(b.len() == n * n * 8);
        assert((i * n + j) * 8 + 8 <= n * n * 8) by (nonlinear_arith)
            requires 0 <= i * n + j < n * n;
        assert forall|t: int| 0 <= t < 8 implies #[trigger] cell_bytes(b, i * n + j)[t]
            == be_bytes(m[i][j])[t] by {
            lemma_cell_index(n, i, j, t);
        }
        assert(cell_bytes(b, i * n + j) =~= be_bytes(m[i][j]));
        lemma_be_round_trip(m[i][j]);
    }
    assert forall|i: int| 0 <= i < n implies #[trigger] d[i] =~= m[i] by {}
    assert(d =~= m);
}

} // verus!

verus! {

/// Reads an `n` by `n` grid from the first `n * n * 8` bytes of `b`, cells
/// in row-major order, each least significant byte first when `little`, else
/// most significant first. `None` when `b` is shorter than that.
pub fn read_matrix(b: &[u8], size: usize, little: bool) -> (r: Option<Matrix>)
    ensures
        r is Some <==> size * size * 8 <= b@.len(),
        r matches Some(m) ==> m.size == size && m@ == decode_cells(b@, size as nat, little),
        r matches Some(m) ==> m.wf(),
{
    let blen = b.len();
    let total: usize = match size.checked_mul(size) {
        Some(s2) => match s2.checked_mul(8) {
            Some(t) => t,
            None => {
                return None;
            },
        },
        None => {
            assert(size * size * 8 >= size * size) by (nonlinear_arith);
            return None;
        },
    };
    if total > blen {
        return None;
    }
    assert(size * size * 8 <= b@.len());
    let mut data: Vec<Vec<u64>> = Vec::new();
    let mut i: usize = 0;
    while i < size
        invariant
            i <= size,
            blen == b@.len(),
            size * size * 8 <= b@.len(),
            data@.len() == i,
            forall|k: int| 0 <= k < i ==> (#[trigger] rows_of(data@)[k])
                == decode_cells(b@, size as nat, little)[k],
        decreases size - i,
    {
        let mut row: Vec<u64> = Vec::new();
        let mut j: usize = 0;
        while j < size
            invariant
                i < size,
                j <= size,
                blen == b@.len(),
                size * size * 8 <= b@.len(),
                row@.len() == j,
                forall|k: int| 0 <= k < j ==> #[trigger] row@[k]
                    == decode_cells(b@, size as nat, little)[i as int][k],
            decreases size - j,
        {
            proof {
                lemma_cell_index(size as nat, i as int, j as int, 0);
                assert((i * size + j) * 8 + 8 <= size * size * 8) by (nonlinear_arith)
                    requires 0 <= i * size + j < size * size;
                assert(0 <= i * size <= i * size + j) by (nonlinear_arith)
                    requires 0 <= i, 0 <= size, 0 <= j;
            }
            let at: usize = (i * size + j) * 8;
            let v = if little { le_decode_u64(b, at) } else { be_decode_u64(b, at) };
            row.push(v);
            j = j + 1;
        }
        proof {
            assert(row@ =~= decode_cells(b@, size as nat, little)[i as int]);
        }
        let ghost prev = data@;
        data.push(row);
        proof {
            assert forall|k: int| 0 <= k < i + 1 implies (#[trigger] rows_of(data@)[k])
                == decode_cells(b@, size as nat, little)[k] by {
                assert(rows_of(data@)[k] == data@[k]@);
                if k < i {
                    assert(data@[k] == prev[k]);
                    assert(rows_of(prev)[k] == prev[k]@);
                }
            }
        }
        i = i + 1;
    }
    let m = Matrix { size, data };
    assert(m@ =~= decode_cells(b@, size as nat, little));
    Some(m)
}

/// Outgoing bytes of one connection, built up a message at a time.
pub struct Writer {
    pub out: Vec<u8>,
}

impl Writer {
    /// A writer that goes on after `out`.
    pub fn new(out: Vec<u8>) -> (r: Writer)
        ensures
            r.out@ == out@,
    {
        Writer { out }
    }

    /// Appends `text` and a newline.
    pub fn println(&mut self, text: &[u8])
        ensures
            final(self).out@ == old(self).out@ + text@ + seq![10u8],
    {
        let mut k: usize = 0;
        while k < text.len()
            invariant
                k <= text@.len(),
                self.out@ == old(self).out@ + text@.subrange(0, k as int),
            decreases text@.len() - k,
        {
            self.out.push(text[k]);
            assert(text@.subrange(0, k + 1) == text@.subrange(0, k as int).push(text@[k as int]));
            k = k + 1;
        }
        assert(text@.subrange(0, k as int) == text@);
        self.out.push(10);
    }

    /// Appends the line that opens a request.
    pub fn println_request(&mut self, request: RequestType)
        ensures
            final(self).out@ == old(self).out@ + request_token(request) + seq![10u8],
    {
        let t = request.token();
        self.println(t.as_slice());
    }

    /// Appends the empty line that ends a message.
    pub fn println_end(&mut self)
        ensures
            final(self).out@ == old(self).out@ + seq![10u8],
    {
        self.out.push(10);
        assert(final(self).out@ == old(self).out@ + seq![10u8]);
    }

    /// Appends a response status line.
    pub fn println_response(&mut self, response: ResponseType)
        ensures
            final(self).out@ == old(self).out@ + response_token(response) + seq![10u8],
    {
        let t = response.token();
        self.println(t.as_slice());
    }

    /// Appends a header line: `prefix` and the decimal text of `value`.
    pub fn println_field(&mut self, prefix: &[u8], value: i64)
        ensures
            final(self).out@ == old(self).out@ + prefix@ + int_text(value as int) + seq![10u8],
    {
        let mut line: Vec<u8> = Vec::new();
        let mut k: usize = 0;
        while k < prefix.len()
            invariant
                k <= prefix@.len(),
                line@ == prefix@.subrange(0, k as int),
            decreases prefix@.len() - k,
        {
            line.push(prefix[k]);
            assert(prefix@.subrange(0, k + 1) == prefix@.subrange(0, k as int).push(prefix@[k as int]));
            k = k + 1;
        }
        assert(prefix@.subrange(0, k as int) == prefix@);
        push_int_text(&mut line, value);
        self.println(line.as_slice());
    }

    /// Appends the cells of a square grid, row by row, each as eight bytes
    /// most significant first, with no delimiters.
    pub fn write_matrix(&mut self, data: &Vec<Vec<u64>>)
        requires
            is_square(rows_of(data@), data@.len() as nat),
        ensures
            final(self).out@ == old(self).out@ + encode_be(rows_of(data@), data@.len() as nat),
    {
        let ghost m = rows_of(data@);
        let ghost base = old(self).out@.len();
        let n = data.len();
        let ghost nn = n as nat;
        let mut i: usize = 0;
        while i < n
            invariant
                n == data@.len(),
                m == rows_of(data@),
                is_square(m, nn),
                nn == n,
                i <= n,
                base == old(self).out@.len(),
                self.out@.len() == base + i * n * 8,
                self.out@.subrange(0, base as int) == old(self).out@,
                forall|p: int| 0 <= p < i * n * 8 ==> #[trigger] self.out@[base + p] == be_byte_at(m, nn, p),
            decreases n - i,
        {
            let row = &data[i];
            assert(row@ == m[i as int]);
            let mut j: usize = 0;
            while j < n
                invariant
                    n == data@.len(),
                    m == rows_of(data@),
                    is_square(m, nn),
                    nn == n,
                    i < n,
                    j <= n,
                    row@ == m[i as int],
                    base == old(self).out@.len(),
                    self.out@.len() == base + (i * n + j) * 8,
                    self.out@.subrange(0, base as int) == old(self).out@,
                    forall|p: int| 0 <= p < (i * n + j) * 8 ==> #[trigger] self.out@[base + p] == be_byte_at(m, nn, p),
                decreases n - j,
            {
                let bytes = be_encode_u64(row[j]);
                let ghost before = self.out@;
                let mut t: usize = 0;
                while t < 8
                    invariant
                        bytes@ == be_bytes(m[i as int][j as int]),
                        t <= 8,
                        i < n,
                        j < n,
                        nn == n,
                        self.out@.len() == before.len() + t,
                        self.out@.subrange(0, before.len() as int) == before,
                        forall|s: int| 0 <= s < t ==> #[trigger] self.out@[before.len() + s] == bytes@[s],
                    decreases 8 - t,
                {
                    self.out.push(bytes[t]);
                    proof {
                        assert(self.out@.subrange(0, before.len() as int) =~= before);
                    }
                    t = t + 1;
                }
                proof {
                    assert forall|p: int| 0 <= p < (i * n + j + 1) * 8 implies #[trigger] self.out@[base + p]
                        == be_byte_at(m, nn, p) by {
                        if p < (i * n + j) * 8 {
                            assert(self.out@[base + p] == self.out@.subrange(0, before.len() as int)[base + p]);
                        } else {
                            let s = p - (i * n + j) * 8;
                            lemma_cell_index(nn, i as int, j as int, s);
                            assert(self.out@[before.len() + s] == bytes@[s]);
                        }
                    }
                    assert(self.out@.subrange(0, base as int) =~= old(self).out@) by {
                        assert forall|q: int| 0 <= q < base implies self.out@[q] == old(self).out@[q] by {
                            assert(self.out@[q] == self.out@.subrange(0, before.len() as int)[q]);
                            assert(before[q] == before.subrange(0, base as int)[q]);
                        }
                    }
                }
                j = j + 1;
            }
            proof {
                assert((i * n + n) * 8 == (i + 1) * n * 8) by (nonlinear_arith);
            }
            i = i + 1;
        }
        proof {
            assert(i * n * 8 == nn * nn * 8);
            assert forall|q: int| 0 <= q < self.out@.len() implies self.out@[q]
                == (old(self).out@ + encode_be(m, nn))[q] by {
                if q < base {
                    assert(self.out@[q] == self.out@.subrange(0, base as int)[q]);
                } else {
                    assert(self.out@[base + (q - base)] == be_byte_at(m, nn, q - base));
                }
            }
            assert(self.out@ =~= old(self).out@ + encode_be(m, nn));
        }
    }
}

} // verus!
