use vstd::prelude::*;
use vstd::string::StringExecFns;

verus! {

pub open spec fn digit_char(d: int) -> char {
    if d == 0 {
        '0'
    } else if d == 1 {
        '1'
    } else if d == 2 {
        '2'
    } else if d == 3 {
        '3'
    } else if d == 4 {
        '4'
    } else if d == 5 {
        '5'
    } else if d == 6 {
        '6'
    } else if d == 7 {
        '7'
    } else if d == 8 {
        '8'
    } else {
        '9'
    }
}

/// The decimal rendering of a nonnegative number: its digits in order, most
/// significant first, with no leading zero except for zero itself.
pub open spec fn dec_digits(n: int) -> Seq<char>
    recommends
        n >= 0,
    decreases n,
{
    if n < 10 {
        seq![digit_char(n)]
    } else {
        dec_digits(n / 10) + seq![digit_char(n % 10)]
    }
}

fn digit_str(d: u64) -> (r: &'static str)
    requires
        d < 10,
    ensures
        r@ == seq![digit_char(d as int)],
{
    if d == 0 {
        proof {
            reveal_strlit("0");
            assert("0"@ =~= seq![digit_char(0)]);
        }
        "0"
    } else if d == 1 {
        proof {
            reveal_strlit("1");
            assert("1"@ =~= seq![digit_char(1)]);
        }
        "1"
    } else if d == 2 {
        proof {
            reveal_strlit("2");
            assert("2"@ =~= seq![digit_char(2)]);
        }
        "2"
    } else if d == 3 {
        proof {
            reveal_strlit("3");
            assert("3"@ =~= seq![digit_char(3)]);
        }
        "3"
    } else if d == 4 {
        proof {
            reveal_strlit("4");
            assert("4"@ =~= seq![digit_char(4)]);
        }
        "4"
    } else if d == 5 {
        proof {
            reveal_strlit("5");
            assert("5"@ =~= seq![digit_char(5)]);
        }
        "5"
    } else if d == 6 {
        proof {
            reveal_strlit("6");
            assert("6"@ =~= seq![digit_char(6)]);
        }
        "6"
    } else if d == 7 {
        proof {
            reveal_strlit("7");
            assert("7"@ =~= seq![digit_char(7)]);
        }
        "7"
    } else if d == 8 {
        proof {
            reveal_strlit("8");
            assert("8"@ =~= seq![digit_char(8)]);
        }
        "8"
    } else {
        proof {
            reveal_strlit("9");
            assert("9"@ =~= seq![digit_char(9)]);
        }
        "9"
    }
}

/// Appends the decimal rendering of `n` to `out`.
pub fn push_decimal(n: u64, out: &mut String)
    ensures
        final(out)@ == old(out)@ + dec_digits(n as int),
    decreases n,
{
    if n >= 10 {
        push_decimal(n / 10, out);
    }
    let d = digit_str(n % 10);
    out.append(d);
    proof {
        if n >= 10 {
            assert(final(out)@ =~= old(out)@ + dec_digits(n as int));
        } else {
            assert(final(out)@ =~= old(out)@ + dec_digits(n as int));
        }
    }
}

/// The decimal rendering of `n` as a fresh string.
pub fn u64_string(n: u64) -> (r: String)
    ensures
        r@ == dec_digits(n as int),
{
    let mut s = String::new();
    push_decimal(n, &mut s);
    proof {
        assert(s@ =~= dec_digits(n as int));
    }
    s
}

/// The memory summary line, from kilobyte counts: both figures are shown in
/// megabytes.
pub open spec fn spec_memory_line(used_kb: int, total_kb: int) -> Seq<char> {
    "Memory: "@ + dec_digits(used_kb / 1024) + " MB / "@ + dec_digits(total_kb / 1024) + " MB"@
}

pub fn memory_line(used_kb: u64, total_kb: u64) -> (r: String)
    ensures
        r@ == spec_memory_line(used_kb as int, total_kb as int),
{
    let mut s = String::from_str("Memory: ");
    push_decimal(used_kb / 1024, &mut s);
    s.append(" MB / ");
    push_decimal(total_kb / 1024, &mut s);
    s.append(" MB");
    proof {
        assert(s@ =~= spec_memory_line(used_kb as int, total_kb as int));
    }
    s
}

/// A disk usage line, from byte counts: available and total space in
/// megabytes.
pub open spec fn spec_disk_line(name: Seq<char>, avail_bytes: int, total_bytes: int) -> Seq<char> {
    name + ": "@ + dec_digits(avail_bytes / 1048576) + " MB / "@ + dec_digits(
        total_bytes / 1048576,
    ) + " MB"@
}

pub fn disk_line(name: &str, avail_bytes: u64, total_bytes: u64) -> (r: String)
    ensures
        r@ == spec_disk_line(name@, avail_bytes as int, total_bytes as int),
{
    let mut s = String::from_str(name);
    s.append(": ");
    push_decimal(avail_bytes / 1048576, &mut s);
    s.append(" MB / ");
    push_decimal(total_bytes / 1048576, &mut s);
    s.append(" MB");
    proof {
        assert(s@ =~= spec_disk_line(name@, avail_bytes as int, total_bytes as int));
    }
    s
}

/// Whether a process earns a place in the disk-processes panel: it has read
/// or written at least one byte.
pub fn disk_process_visible(read_bytes: u64, written_bytes: u64) -> (r: bool)
    ensures
        r == (read_bytes > 0 || written_bytes > 0),
{
    read_bytes > 0 || written_bytes > 0
}

/// A disk-processes line: the process name with its lifetime read and
/// written byte counts.
pub open spec fn spec_disk_process_line(name: Seq<char>, read_bytes: int, written_bytes: int) -> Seq<
    char,
> {
    name + ": Read "@ + dec_digits(read_bytes) + " bytes, Wrote "@ + dec_digits(written_bytes)
        + " bytes"@
}

pub fn disk_process_line(name: &str, read_bytes: u64, written_bytes: u64) -> (r: String)
    ensures
        r@ == spec_disk_process_line(name@, read_bytes as int, written_bytes as int),
{
    let mut s = String::from_str(name);
    s.append(": Read ");
    push_decimal(read_bytes, &mut s);
    s.append(" bytes, Wrote ");
    push_decimal(written_bytes, &mut s);
    s.append(" bytes");
    proof {
        assert(s@ =~= spec_disk_process_line(name@, read_bytes as int, written_bytes as int));
    }
    s
}

/// A network activity line: the interface name with its received and
/// transmitted byte counts.
pub open spec fn spec_network_line(iface: Seq<char>, rx_bytes: int, tx_bytes: int) -> Seq<char> {
    iface + ": Received "@ + dec_digits(rx_bytes) + " bytes, Transmitted "@ + dec_digits(tx_bytes)
        + " bytes"@
}

pub fn network_line(iface: &str, rx_bytes: u64, tx_bytes: u64) -> (r: String)
    ensures
        r@ == spec_network_line(iface@, rx_bytes as int, tx_bytes as int),
{
    let mut s = String::from_str(iface);
    s.append(": Received ");
    push_decimal(rx_bytes, &mut s);
    s.append(" bytes, Transmitted ");
    push_decimal(tx_bytes, &mut s);
    s.append(" bytes");
    proof {
        assert(s@ =~= spec_network_line(iface@, rx_bytes as int, tx_bytes as int));
    }
    s
}

/// The disk-processes panel's lines for a sequence of per-process I/O
/// records `(name, read bytes, written bytes)`: one line per process that
/// has read or written at least one byte, in input order.
pub open spec fn spec_disk_process_lines(entries: Seq<(String, u64, u64)>) -> Seq<Seq<char>>
    decreases entries.len(),
{
    if entries.len() == 0 {
        Seq::empty()
    } else {
        let rest = spec_disk_process_lines(entries.drop_last());
        let e = entries.last();
        if e.1 > 0 || e.2 > 0 {
            rest.push(spec_disk_process_line(e.0@, e.1 as int, e.2 as int))
        } else {
            rest
        }
    }
}

/// Builds the disk-processes panel from per-process I/O records: keeps
/// exactly the processes that touched the disk, in order, one formatted
/// line each.
pub fn disk_process_lines(entries: &Vec<(String, u64, u64)>) -> (r: Vec<String>)
    ensures
        r@.map_values(|x: String| x@) == spec_disk_process_lines(entries@),
{
    let n = entries.len();
    let mut out: Vec<String> = Vec::new();
    let mut i: usize = 0;
    while i < n
        invariant
            0 <= i <= n,
            n == entries@.len(),
            out@.map_values(|x: String| x@) == spec_disk_process_lines(entries@.take(i as int)),
        decreases n - i,
    {
        let ghost pre = out@;
        let e = &entries[i];
        if disk_process_visible(e.1, e.2) {
            out.push(disk_process_line(e.0.as_str(), e.1, e.2));
        }
        proof {
            assert(entries@.take(i as int + 1).drop_last() =~= entries@.take(i as int));
            assert(entries@.take(i as int + 1).last() == entries@[i as int]);
            if entries@[i as int].1 > 0 || entries@[i as int].2 > 0 {
                assert(out@.map_values(|x: String| x@) =~= pre.map_values(|x: String| x@).push(
                    spec_disk_process_line(
                        entries@[i as int].0@,
                        entries@[i as int].1 as int,
                        entries@[i as int].2 as int,
                    ),
                ));
            }
        }
        i = i + 1;
    }
    proof {
        assert(entries@.take(n as int) =~= entries@);
    }
    out
}

/// The parts joined in order with `sep` between each adjacent pair.
pub open spec fn spec_join(parts: Seq<Seq<char>>, sep: Seq<char>) -> Seq<char>
    decreases parts.len(),
{
    if parts.len() == 0 {
        Seq::empty()
    } else if parts.len() == 1 {
        parts[0]
    } else {
        spec_join(parts.drop_last(), sep) + sep + parts.last()
    }
}

/// Joins lines with a separator, in order.
pub fn join_with(lines: &Vec<String>, sep: &str) -> (r: String)
    ensures
        r@ == spec_join(lines@.map_values(|x: String| x@), sep@),
{
    let ghost m = lines@.map_values(|x: String| x@);
    let mut s = String::new();
    let n = lines.len();
    let mut i: usize = 0;
    while i < n
        invariant
            0 <= i <= n,
            n == lines@.len(),
            m == lines@.map_values(|x: String| x@),
            s@ == spec_join(m.take(i as int), sep@),
        decreases n - i,
    {
        if i > 0 {
            s.append(sep);
        }
        s.append(lines[i].as_str());
        proof {
            assert(m.take(i as int + 1).drop_last() =~= m.take(i as int));
            assert(m.take(i as int + 1).last() == lines@[i as int]@);
            if i == 0 {
                assert(s@ =~= spec_join(m.take(1), sep@));
            }
        }
        i = i + 1;
    }
    proof {
        assert(m.take(n as int) =~= m);
    }
    s
}

/// Row `k` of the grouped rendering: the `k`-th run of up to `g` lines,
/// joined with single spaces.
pub open spec fn spec_row(parts: Seq<Seq<char>>, g: int, k: int) -> Seq<char> {
    spec_join(
        parts.subrange(k * g, vstd::math::min((k + 1) * g, parts.len() as int)),
        " "@,
    )
}

/// Lines packed `g` to a row: the rendering the CPU panel shows, one row
/// per group of `g` consecutive core lines. There are `ceil(n / g)` rows.
pub open spec fn spec_grouped(parts: Seq<Seq<char>>, g: int) -> Seq<Seq<char>> {
    Seq::new(
        crate::constraints::ceil_div(parts.len() as int, g) as nat,
        |k: int| spec_row(parts, g, k),
    )
}

proof fn lemma_ceil_div_of_bounds(n: int, g: int, k: int)
    requires
        g >= 1,
        k >= 1,
        (k - 1) * g < n,
        n <= k * g,
    ensures
        crate::constraints::ceil_div(n, g) == k,
{
    let q = n / g;
    let r = n % g;
    vstd::arithmetic::div_mod::lemma_fundamental_div_mod(n, g);
    if r == 0 {
        assert(q == k) by (nonlinear_arith)
            requires
                n == g * q,
                (k - 1) * g < n,
                n <= k * g,
                g >= 1,
        ;
    } else {
        assert(0 <= r < g) by {
            vstd::arithmetic::div_mod::lemma_mod_bound(n, g);
        }
        assert(q + 1 == k) by (nonlinear_arith)
            requires
                n == g * q + r,
                0 < r < g,
                (k - 1) * g < n,
                n <= k * g,
                g >= 1,
        ;
    }
}

/// Packs lines `group` to a row, each row joining its lines with single
/// spaces: the body of the CPU panel.
pub fn group_lines(lines: &Vec<String>, group: usize) -> (r: Vec<String>)
    requires
        group >= 1,
    ensures
        r@.map_values(|x: String| x@) == spec_grouped(
            lines@.map_values(|x: String| x@),
            group as int,
        ),
        r@.len() == crate::constraints::ceil_div(lines@.len() as int, group as int),
{
    let ghost m = lines@.map_values(|x: String| x@);
    let ghost g = group as int;
    let n = lines.len();
    let mut out: Vec<String> = Vec::new();
    let mut start: usize = 0;
    let ghost rows = crate::constraints::ceil_div(n as int, g);
    proof {
        assert((0int) * g == 0) by (nonlinear_arith);
    }
    while start < n
        invariant
            group >= 1,
            n == lines@.len(),
            m == lines@.map_values(|x: String| x@),
            g == group as int,
            0 <= start <= n,
            start as int == vstd::math::min((out@.len() as int) * g, n as int),
            out@.len() >= 1 ==> (out@.len() as int - 1) * g < n as int,
            forall|k: int|
                0 <= k < out@.len() ==> #[trigger] out@[k]@ == spec_row(m, g, k),
        decreases n - start,
    {
        let ghost k = out@.len() as int;
        proof {
            if k * g >= n as int {
                assert(start as int == n as int);
            }
            assert(start as int == k * g);
            assert((k + 1) * g == k * g + g) by (nonlinear_arith);
        }
        let end = if n - start > group {
            start + group
        } else {
            n
        };
        let mut chunk: Vec<String> = Vec::new();
        let mut j: usize = start;
        while j < end
            invariant
                start <= j <= end <= n,
                n == lines@.len(),
                m == lines@.map_values(|x: String| x@),
                chunk@.map_values(|x: String| x@) =~= m.subrange(start as int, j as int),
            decreases end - j,
        {
            let ghost pre = chunk@;
            chunk.push(lines[j].clone());
            proof {
                assert(chunk@ == pre.push(lines@[j as int]));
                assert(m.len() == n as int);
                assert(m[j as int] == lines@[j as int]@);
                assert(pre.map_values(|x: String| x@) == m.subrange(start as int, j as int));
                assert(pre.map_values(|x: String| x@).len() == pre.len());
                assert(pre.len() == j as int - start as int);
                assert(chunk@.len() == j as int + 1 - start as int);
                assert forall|i: int|
                    0 <= i < chunk@.len() implies chunk@.map_values(|x: String| x@)[i]
                        == #[trigger] m.subrange(start as int, j as int + 1)[i] by {
                    if i < pre.len() {
                        assert(pre.map_values(|x: String| x@)[i] == m.subrange(
                            start as int,
                            j as int,
                        )[i]);
                    }
                }
                assert(chunk@.map_values(|x: String| x@) =~= m.subrange(
                    start as int,
                    j as int + 1,
                ));
            }
            j = j + 1;
        }
        let row = join_with(&chunk, " ");
        proof {
            assert(end as int == vstd::math::min((k + 1) * g, n as int));
            assert(row@ == spec_row(m, g, k));
        }
        out.push(row);
        start = end;
    }
    proof {
        if out@.len() == 0 {
            assert(n == 0);
            assert(rows == 0);
        } else {
            let k = out@.len() as int;
            assert(n as int <= k * g && (k - 1) * g < n as int);
            lemma_ceil_div_of_bounds(n as int, g, k);
        }
        assert(out@.map_values(|x: String| x@) =~= spec_grouped(m, g));
    }
    out
}

/// The CPU panel's body: core lines packed `group` to a row, the rows
/// joined with line breaks.
pub fn cpu_panel_body(lines: &Vec<String>, group: usize) -> (r: String)
    requires
        group >= 1,
    ensures
        r@ == spec_join(
            spec_grouped(lines@.map_values(|x: String| x@), group as int),
            "\n"@,
        ),
{
    let rows = group_lines(lines, group);
    join_with(&rows, "\n")
}

} // verus!
