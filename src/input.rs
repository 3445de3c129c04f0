use vstd::prelude::*;

verus! {

/// The line separator of the input layout.
pub const NEWLINE: u8 = 10;

/// The separator between the components of a vector line.
pub const SPACE: u8 = 32;

/// `s` cut at every `sep`: `k` separators give `k + 1` pieces, possibly empty.
pub open spec fn split_on(s: Seq<u8>, sep: u8) -> Seq<Seq<u8>>
    decreases s.len(),
{
    if s.len() == 0 {
        seq![Seq::empty()]
    } else {
        let init = split_on(s.drop_last(), sep);
        if s.last() == sep {
            init.push(Seq::empty())
        } else {
            init.update(init.len() - 1, init.last().push(s.last()))
        }
    }
}

/// The byte strings held by a sequence of byte vectors.
pub open spec fn views(v: Seq<Vec<u8>>) -> Seq<Seq<u8>> {
    v.map_values(|x: Vec<u8>| x@)
}

proof fn lemma_split_on_nonempty(s: Seq<u8>, sep: u8)
    ensures
        split_on(s, sep).len() >= 1,
    decreases s.len(),
{
    if s.len() > 0 {
        lemma_split_on_nonempty(s.drop_last(), sep);
    }
}

/// Cuts `s` at every `sep`.
pub fn split_bytes(s: &Vec<u8>, sep: u8) -> (r: Vec<Vec<u8>>)
    ensures
        views(r@) == split_on(s@, sep),
{
    let mut parts: Vec<Vec<u8>> = Vec::new();
    let mut cur: Vec<u8> = Vec::new();
    let n = s.len();
    assert(s@.subrange(0, 0) =~= Seq::<u8>::empty());
    assert(views(parts@).push(cur@) =~= split_on(s@.subrange(0, 0), sep));
    for i in 0..n
        invariant
            n == s@.len(),
            views(parts@).push(cur@) == split_on(s@.subrange(0, i as int), sep),
    {
        let c = s[i];
        let ghost pre = s@.subrange(0, i as int);
        let ghost next = s@.subrange(0, i + 1);
        assert(next.drop_last() =~= pre);
        assert(next.last() == c);
        proof {
            lemma_split_on_nonempty(pre, sep);
        }
        if c == sep {
            parts.push(cur);
            cur = Vec::new();
            assert(views(parts@).push(cur@) =~= split_on(next, sep));
        } else {
            cur.push(c);
            assert(views(parts@).push(cur@) =~= split_on(next, sep));
        }
    }
    assert(s@.subrange(0, n as int) =~= s@);
    parts.push(cur);
    assert(views(parts@) =~= split_on(s@, sep));
    parts
}

/// `b` is an ASCII decimal digit.
pub open spec fn is_digit(b: u8) -> bool {
    48 <= b <= 57
}

/// `s` is a non-empty string of decimal digits.
pub open spec fn is_decimal(s: Seq<u8>) -> bool {
    s.len() > 0 && forall|i: int| 0 <= i < s.len() ==> is_digit(#[trigger] s[i])
}

/// The number that the decimal digits `s` write.
pub open spec fn decimal_value(s: Seq<u8>) -> nat
    decreases s.len(),
{
    if s.len() == 0 {
        0
    } else {
        decimal_value(s.drop_last()) * 10 + (s.last() - 48) as nat
    }
}

/// What a count line says, measured against a bound.
enum CountLine {
    NotDecimal,
    Above,
    Value(usize),
}

/// Reads the decimal count `line`, telling apart a value above `bound`.
fn read_count(line: &Vec<u8>, bound: usize) -> (r: CountLine)
    ensures
        r is NotDecimal <==> !is_decimal(line@),
        r is Above ==> decimal_value(line@) > bound,
        r matches CountLine::Value(c) ==> c == decimal_value(line@) && c <= bound,
{
    let n = line.len();
    if n == 0 {
        return CountLine::NotDecimal;
    }
    let mut v: u128 = 0;
    let mut above = false;
    for i in 0..n
        invariant
            n == line@.len(),
            forall|k: int| 0 <= k < i ==> is_digit(#[trigger] line@[k]),
            !above ==> v == decimal_value(line@.subrange(0, i as int)) && v <= bound,
            above ==> decimal_value(line@.subrange(0, i as int)) > bound,
    {
        let b = line[i];
        if b < 48 || b > 57 {
            return CountLine::NotDecimal;
        }
        let ghost pre = line@.subrange(0, i as int);
        assert(line@.subrange(0, i + 1).drop_last() =~= pre);
        if !above {
            v = v * 10 + (b - 48) as u128;
            if v > bound as u128 {
                above = true;
            }
        } else {
            assert(decimal_value(line@.subrange(0, i + 1)) >= decimal_value(pre)) by (nonlinear_arith)
                requires
                    decimal_value(line@.subrange(0, i + 1)) == decimal_value(pre) * 10 + (line@[i as int]
                        - 48) as nat,
            ;
        }
    }
    assert(line@.subrange(0, n as int) =~= line@);
    if above {
        CountLine::Above
    } else {
        CountLine::Value(v as usize)
    }
}

/// The text of one particle block: its mass and the components of its
/// position and velocity, each as written.
pub struct ParticleRecord {
    pub mass: Vec<u8>,
    pub position: Vec<Vec<u8>>,
    pub velocity: Vec<Vec<u8>>,
}

/// The text of a simulation input: time step, end time and particle blocks.
pub struct SimulationRecord {
    pub delta_t: Vec<u8>,
    pub t_end: Vec<u8>,
    pub particles: Vec<ParticleRecord>,
}

/// Why an input does not follow the layout.
#[derive(Clone, Copy, Debug, PartialEq, Eq, Structural)]
pub enum InputError {
    /// The input ends before the lines that its count announces.
    Truncated,
    /// The particle count line is not a decimal number.
    BadCount,
    /// The first particle block whose position or velocity has another number
    /// of components than the position of the first block.
    DimensionMismatch { particle: usize },
}

/// The lines of `text`.
pub open spec fn lines_of(text: Seq<u8>) -> Seq<Seq<u8>> {
    split_on(text, NEWLINE)
}

/// The announced number of particles.
pub open spec fn count_of(lines: Seq<Seq<u8>>) -> nat {
    decimal_value(lines[2])
}

/// The lines hold a time step, an end time, a decimal count, and that many
/// blocks of four lines: a separator line, a mass, a position, a velocity.
pub open spec fn complete(lines: Seq<Seq<u8>>) -> bool {
    &&& lines.len() >= 3
    &&& is_decimal(lines[2])
    &&& 3 + 4 * count_of(lines) <= lines.len()
}

/// The components of line `off` (0 to 3) of particle block `k`.
pub open spec fn block_components(lines: Seq<Seq<u8>>, k: int, off: int) -> Seq<Seq<u8>> {
    split_on(lines[3 + 4 * k + off], SPACE)
}

/// The dimension of the input: the number of position components of the first block.
pub open spec fn input_dim(lines: Seq<Seq<u8>>) -> nat {
    if count_of(lines) == 0 {
        0
    } else {
        block_components(lines, 0, 2).len()
    }
}

/// Position and velocity of block `k` have `input_dim` components each.
pub open spec fn block_fits(lines: Seq<Seq<u8>>, k: int) -> bool {
    &&& block_components(lines, k, 2).len() == input_dim(lines)
    &&& block_components(lines, k, 3).len() == input_dim(lines)
}

/// The lines follow the layout and all particles share one dimension.
pub open spec fn well_formed_input(lines: Seq<Seq<u8>>) -> bool {
    &&& complete(lines)
    &&& forall|k: int| 0 <= k < count_of(lines) ==> block_fits(lines, k)
}

/// The lines end before the count line, or before the blocks it announces.
pub open spec fn truncated(lines: Seq<Seq<u8>>) -> bool {
    lines.len() < 3 || (is_decimal(lines[2]) && 3 + 4 * count_of(lines) > lines.len())
}

/// The count line is there and is not a decimal number.
pub open spec fn bad_count(lines: Seq<Seq<u8>>) -> bool {
    lines.len() >= 3 && !is_decimal(lines[2])
}

/// Block `k` is the first whose dimension disagrees with the first block.
pub open spec fn first_mismatch(lines: Seq<Seq<u8>>, k: int) -> bool {
    &&& complete(lines)
    &&& 0 <= k < count_of(lines)
    &&& !block_fits(lines, k)
    &&& forall|j: int| 0 <= j < k ==> block_fits(lines, j)
}

/// `p` holds what block `k` of the lines writes.
pub open spec fn holds_block(p: ParticleRecord, lines: Seq<Seq<u8>>, k: int) -> bool {
    &&& p.mass@ == lines[3 + 4 * k + 1]
    &&& views(p.position@) == block_components(lines, k, 2)
    &&& views(p.velocity@) == block_components(lines, k, 3)
}

/// `rec` holds the time step, the end time and every particle block of the lines.
pub open spec fn holds_input(rec: SimulationRecord, lines: Seq<Seq<u8>>) -> bool {
    &&& rec.delta_t@ == lines[0]
    &&& rec.t_end@ == lines[1]
    &&& rec.particles@.len() == count_of(lines)
    &&& forall|k: int| 0 <= k < rec.particles@.len() ==> holds_block(#[trigger] rec.particles@[k], lines, k)
}

fn copy_bytes(v: &Vec<u8>) -> (r: Vec<u8>)
    ensures
        r@ == v@,
{
    let r = v.clone();
    assert(r@ =~= v@);
    r
}

/// Reads the input layout: the time step on the first line, the end time on
/// the second, the particle count on the third, then for each particle a
/// separator line, its mass, and its position and velocity as components
/// separated by single spaces. Lines after the last block are ignored.
pub fn parse_simulation(text: &Vec<u8>) -> (r: Result<SimulationRecord, InputError>)
    ensures
        r is Ok <==> well_formed_input(lines_of(text@)),
        r == Err::<SimulationRecord, InputError>(InputError::Truncated) <==> truncated(lines_of(text@)),
        r == Err::<SimulationRecord, InputError>(InputError::BadCount) <==> bad_count(lines_of(text@)),
        r matches Err(InputError::DimensionMismatch { particle }) ==> first_mismatch(
            lines_of(text@),
            particle as int,
        ),
        r matches Ok(rec) ==> holds_input(rec, lines_of(text@)),
{
    let lines = split_bytes(text, NEWLINE);
    let ghost ls = lines_of(text@);
    assert(views(lines@) == ls);
    let nl = lines.len();
    if nl < 3 {
        return Err(InputError::Truncated);
    }
    assert(lines@[2]@ == ls[2]);
    let count = match read_count(&lines[2], nl) {
        CountLine::NotDecimal => {
            return Err(InputError::BadCount);
        },
        CountLine::Above => {
            return Err(InputError::Truncated);
        },
        CountLine::Value(c) => c,
    };
    if (nl - 3) / 4 < count {
        return Err(InputError::Truncated);
    }
    assert(complete(ls));
    let mut particles: Vec<ParticleRecord> = Vec::new();
    let mut dim: usize = 0;
    for k in 0..count
        invariant
            nl == lines@.len(),
            views(lines@) == ls,
            ls == lines_of(text@),
            complete(ls),
            count == count_of(ls),
            3 + 4 * count <= nl,
            k > 0 ==> dim == input_dim(ls),
            particles@.len() == k,
            forall|j: int| 0 <= j < k ==> block_fits(ls, j),
            forall|j: int| 0 <= j < k ==> holds_block(#[trigger] particles@[j], ls, j),
    {
        let base = 3 + 4 * k;
        let position = split_bytes(&lines[base + 2], SPACE);
        let velocity = split_bytes(&lines[base + 3], SPACE);
        assert(lines@[base + 2]@ == ls[base + 2]);
        assert(lines@[base + 3]@ == ls[base + 3]);
        assert(lines@[base + 1]@ == ls[base + 1]);
        assert(views(position@).len() == position@.len());
        assert(views(velocity@).len() == velocity@.len());
        assert(views(position@) == block_components(ls, k as int, 2));
        assert(views(velocity@) == block_components(ls, k as int, 3));
        if k == 0 {
            dim = position.len();
        }
        assert(dim == input_dim(ls));
        if position.len() != dim || velocity.len() != dim {
            assert(!block_fits(ls, k as int));
            assert(!well_formed_input(ls));

            return Err(InputError::DimensionMismatch { particle: k });
        }
        let mass = copy_bytes(&lines[base + 1]);
        particles.push(ParticleRecord { mass, position, velocity });
    }
    let delta_t = copy_bytes(&lines[0]);
    let t_end = copy_bytes(&lines[1]);
    assert(lines@[0]@ == ls[0]);
    assert(lines@[1]@ == ls[1]);
    Ok(SimulationRecord { delta_t, t_end, particles })
}

} // verus!
