//! Buffers for formatted text. A buffer here records what is to be printed; laying the text out,
//! with its columns and units, is left to what carries the operations out.
use vstd::prelude::*;

verus! {

/// An operation on a text buffer.
pub enum PrintOp {
    /// Forget all tabstops.
    TabstopsReset,
    /// Add a tabstop, so many columns behind the previous one.
    TabstopPush(u32),
    /// Indent by so many more columns.
    IndentAdd(u32),
    /// Indent by so many fewer columns.
    IndentSub(u32),
    /// Advance to the next tabstop.
    Tab,
    /// Right-justify the text before the next tabstop.
    TabRjust,
    /// End the line.
    Newline,
    /// Print a number, with units where they are set.
    UnitsU64(u64),
    /// Print a number in a form that is easy to read.
    HumanReadableU64(u64),
    /// Print a metadata version.
    Version(u32),
    /// Print text.
    Text(String),
    /// Align the columns of what was printed so far.
    TabstopAlign,
    /// What follows, up to the matching end, goes to a buffer of its own.
    SectionBegin,
    /// Append that buffer.
    SectionEnd,
}

/// The flags of a text buffer.
#[allow(non_camel_case_types)]
#[derive(Clone, Copy, PartialEq, Eq, Structural, Debug)]
pub struct printbuf {
    /// Whether the text is on the heap, and grows.
    pub heap_allocated: bool,
    /// Whether numbers are printed with units.
    pub human_readable_units: bool,
}

impl printbuf {
    /// The flags of a new buffer.
    pub fn new() -> (r: printbuf)
        ensures
            r.heap_allocated,
            !r.human_readable_units,
    {
        printbuf { heap_allocated: true, human_readable_units: false }
    }
}

/// An operation on a text buffer, and the setting of the buffer that it is carried out under.
pub struct Printed {
    pub op: PrintOp,
    /// Whether numbers are printed with units.
    pub human_readable_units: bool,
}

/// A text buffer.
pub struct Printbuf {
    raw: printbuf,
    ops: Vec<Printed>,
}

/// The operations `ops`, all carried out under one setting.
pub open spec fn all_under(ops: Seq<PrintOp>, human_readable_units: bool) -> Seq<Printed> {
    ops.map_values(|op: PrintOp| Printed { op, human_readable_units })
}

/// The operations that replace all tabstops by ones of the given widths.
pub open spec fn tabstop_ops(widths: Seq<u32>) -> Seq<PrintOp> {
    seq![PrintOp::TabstopsReset] + widths.map_values(|w: u32| PrintOp::TabstopPush(w))
}

/// How far the operations indent, in the buffer and in each section that is not ended, the inner
/// ones last: what they add to the indentation there, less what they take away.
pub open spec fn indents(ops: Seq<Printed>) -> Seq<int>
    decreases ops.len(),
{
    if ops.len() == 0 {
        seq![0]
    } else {
        let before = indents(ops.drop_last());
        match ops.last().op {
            PrintOp::IndentAdd(n) => before.drop_last().push(before.last() + n),
            PrintOp::IndentSub(n) => before.drop_last().push(before.last() - n),
            PrintOp::SectionBegin => before.push(0),
            PrintOp::SectionEnd => before.drop_last(),
            _ => before,
        }
    }
}

impl Printbuf {
    /// What is to be printed, each operation under the setting of its time.
    pub closed spec fn recorded(self) -> Seq<Printed> {
        self.ops@
    }

    /// The flags.
    pub closed spec fn flags(self) -> printbuf {
        self.raw
    }

    /// What is to be printed once the operation `op` was added, under the present setting.
    pub open spec fn printing(self, op: PrintOp) -> Seq<Printed> {
        self.recorded().push(
            Printed { op, human_readable_units: self.flags().human_readable_units },
        )
    }

    /// An empty buffer.
    pub fn new() -> (r: Self)
        ensures
            r.recorded() == Seq::<Printed>::empty(),
            r.flags() == (printbuf { heap_allocated: true, human_readable_units: false }),
    {
        Printbuf { raw: printbuf::new(), ops: Vec::new() }
    }

    /// What is to be printed.
    pub fn ops(&self) -> (r: &Vec<Printed>)
        ensures
            r@ == self.recorded(),
    {
        &self.ops
    }

    fn push(&mut self, op: PrintOp)
        ensures
            final(self).recorded() == old(self).printing(op),
            final(self).flags() == old(self).flags(),
    {
        let human_readable_units = self.raw.human_readable_units;
        self.ops.push(Printed { op, human_readable_units });
    }

    /// Adds a tabstop.
    pub fn tabstop_push(&mut self, spaces: u32)
        ensures
            final(self).recorded() == old(self).printing(PrintOp::TabstopPush(spaces)),
            final(self).flags() == old(self).flags(),
    {
        self.push(PrintOp::TabstopPush(spaces));
    }

    /// Forgets all tabstops.
    pub fn tabstops_reset(&mut self)
        ensures
            final(self).recorded() == old(self).printing(PrintOp::TabstopsReset),
            final(self).flags() == old(self).flags(),
    {
        self.push(PrintOp::TabstopsReset);
    }

    /// Replaces all tabstops by ones of the given widths.
    pub fn tabstops(&mut self, widths: &[u32])
        ensures
            final(self).recorded() == old(self).recorded() + all_under(
                tabstop_ops(widths@),
                old(self).flags().human_readable_units,
            ),
            final(self).flags() == old(self).flags(),
    {
        let ghost head = self.recorded();
        let ghost flags = self.flags();
        let ghost units = flags.human_readable_units;
        self.tabstops_reset();
        let mut i: usize = 0;
        assert(self.recorded() == head + all_under(tabstop_ops(widths@.take(0)), units));
        while i < widths.len()
            invariant
                i <= widths.len(),
                units == flags.human_readable_units,
                self.recorded() == head + all_under(tabstop_ops(widths@.take(i as int)), units),
                self.flags() == flags,
            decreases widths.len() - i,
        {
            self.tabstop_push(widths[i]);
            assert(widths@.take(i + 1) == widths@.take(i as int).push(widths@[i as int]));
            assert(tabstop_ops(widths@.take(i + 1)) == tabstop_ops(widths@.take(i as int)).push(
                PrintOp::TabstopPush(widths@[i as int]),
            ));
            assert(self.recorded() == head + all_under(tabstop_ops(widths@.take(i + 1)), units));
            i = i + 1;
        }
        assert(widths@.take(i as int) == widths@);
    }

    /// Indents by more columns.
    pub fn indent_add(&mut self, spaces: u32)
        ensures
            final(self).recorded() == old(self).printing(PrintOp::IndentAdd(spaces)),
            final(self).flags() == old(self).flags(),
    {
        self.push(PrintOp::IndentAdd(spaces));
    }

    /// Indents by fewer columns.
    pub fn indent_sub(&mut self, spaces: u32)
        ensures
            final(self).recorded() == old(self).printing(PrintOp::IndentSub(spaces)),
            final(self).flags() == old(self).flags(),
    {
        self.push(PrintOp::IndentSub(spaces));
    }

    /// Indents by more columns, until [`PrintbufIndent::end`].
    pub fn indent(&mut self, spaces: u32) -> (r: PrintbufIndent<'_>)
        ensures
            r.buf.recorded() == old(self).printing(PrintOp::IndentAdd(spaces)),
            r.buf.flags() == old(self).flags(),
            r.spaces == spaces,
            *final(self) == *final(r.buf),
    {
        self.indent_add(spaces);
        PrintbufIndent { buf: self, spaces }
    }

    /// Advances to the next tabstop.
    pub fn tab(&mut self)
        ensures
            final(self).recorded() == old(self).printing(PrintOp::Tab),
            final(self).flags() == old(self).flags(),
    {
        self.push(PrintOp::Tab);
    }

    /// Right-justifies the text before the next tabstop.
    pub fn tab_rjust(&mut self)
        ensures
            final(self).recorded() == old(self).printing(PrintOp::TabRjust),
            final(self).flags() == old(self).flags(),
    {
        self.push(PrintOp::TabRjust);
    }

    /// Aligns the columns of what was printed so far.
    pub fn tabstop_align(&mut self)
        ensures
            final(self).recorded() == old(self).printing(PrintOp::TabstopAlign),
            final(self).flags() == old(self).flags(),
    {
        self.push(PrintOp::TabstopAlign);
    }

    /// Prints a section with columns of its own. `f` is given an empty buffer that prints numbers
    /// as this one does; what it has printed there, each number under the setting of that buffer at
    /// the time, is aligned, and appended. The setting of this buffer stays as it is.
    pub fn aligned<F: FnOnce(Printbuf) -> Printbuf>(&mut self, f: F)
        requires
            forall|b: Printbuf| call_requires(f, (b,)),
        ensures
            final(self).flags() == old(self).flags(),
            exists|empty: Printbuf, sub: Printbuf| #[trigger]
                call_ensures(f, (empty,), sub) && empty.recorded() == Seq::<Printed>::empty()
                    && empty.flags() == (printbuf {
                    heap_allocated: true,
                    human_readable_units: old(self).flags().human_readable_units,
                }) && final(self).recorded() == old(self).printing(PrintOp::SectionBegin)
                    + sub.printing(PrintOp::TabstopAlign) + all_under(
                    seq![PrintOp::SectionEnd],
                    old(self).flags().human_readable_units,
                ),
    {
        let ghost head = *self;
        let mut empty = Printbuf::new();
        empty.set_human_readable(self.is_human_readable());
        let ghost given = empty;
        let mut sub = f(empty);
        let ghost printed = sub;
        sub.tabstop_align();
        self.push(PrintOp::SectionBegin);
        self.ops.append(&mut sub.ops);
        self.push(PrintOp::SectionEnd);
        assert(self.recorded() == head.printing(PrintOp::SectionBegin) + printed.printing(
            PrintOp::TabstopAlign,
        ) + all_under(seq![PrintOp::SectionEnd], head.flags().human_readable_units));
        assert(call_ensures(f, (given,), printed));
    }

    /// Ends the line.
    pub fn newline(&mut self)
        ensures
            final(self).recorded() == old(self).printing(PrintOp::Newline),
            final(self).flags() == old(self).flags(),
    {
        self.push(PrintOp::Newline);
    }

    /// Prints a number, with units where the buffer prints them at the time.
    pub fn units_u64(&mut self, v: u64)
        ensures
            final(self).recorded() == old(self).printing(PrintOp::UnitsU64(v)),
            final(self).flags() == old(self).flags(),
    {
        self.push(PrintOp::UnitsU64(v));
    }

    /// Prints a number of sectors as bytes.
    pub fn units_sectors(&mut self, sectors: u64)
        ensures
            final(self).recorded() == old(self).printing(
                PrintOp::UnitsU64(((sectors * 512) % 0x1_0000_0000_0000_0000) as u64),
            ),
            final(self).flags() == old(self).flags(),
    {
        let bytes: u64 = sectors.wrapping_mul(512);
        self.units_u64(bytes);
    }

    /// Whether numbers are printed with units.
    pub fn is_human_readable(&self) -> (r: bool)
        ensures
            r == self.flags().human_readable_units,
    {
        self.raw.human_readable_units
    }

    /// Sets whether numbers are printed with units from now on.
    pub fn set_human_readable(&mut self, v: bool)
        ensures
            final(self).flags() == (printbuf { human_readable_units: v, ..old(self).flags() }),
            final(self).recorded() == old(self).recorded(),
    {
        self.raw.human_readable_units = v;
    }

    /// Prints a number in a form that is easy to read.
    pub fn human_readable_u64(&mut self, v: u64)
        ensures
            final(self).recorded() == old(self).printing(PrintOp::HumanReadableU64(v)),
            final(self).flags() == old(self).flags(),
    {
        self.push(PrintOp::HumanReadableU64(v));
    }

    /// Prints a metadata version.
    pub fn version(&mut self, v: u32)
        ensures
            final(self).recorded() == old(self).printing(PrintOp::Version(v)),
            final(self).flags() == old(self).flags(),
    {
        self.push(PrintOp::Version(v));
    }

    /// Prints text.
    pub fn write_str(&mut self, s: String)
        ensures
            final(self).recorded() == old(self).printing(PrintOp::Text(s)),
            final(self).flags() == old(self).flags(),
    {
        self.push(PrintOp::Text(s));
    }

    /// The flags, to be changed in place.
    pub fn as_raw(&mut self) -> (r: &mut printbuf)
        ensures
            *r == old(self).flags(),
            final(self).flags() == *final(r),
            final(self).recorded() == old(self).recorded(),
    {
        &mut self.raw
    }
}

impl Default for Printbuf {
    fn default() -> (r: Self)
        ensures
            r.recorded() == Seq::<Printed>::empty(),
            r.flags() == (printbuf { heap_allocated: true, human_readable_units: false }),
    {
        Printbuf::new()
    }
}

/// A buffer that is indented, until the end of the indentation.
pub struct PrintbufIndent<'a> {
    pub buf: &'a mut Printbuf,
    pub spaces: u32,
}

impl<'a> PrintbufIndent<'a> {
    /// Takes the indentation back.
    pub fn end(self)
        ensures
            final(self.buf).recorded() == old(self.buf).printing(PrintOp::IndentSub(self.spaces)),
            final(self.buf).flags() == old(self.buf).flags(),
    {
        let buf = self.buf;
        buf.indent_sub(self.spaces);
    }
}

/// The end of an indentation takes back what its start has added: what is printed within leaves the
/// indentation as it was, where it does so itself.
pub proof fn law_indent_is_taken_back(
    before: Seq<Printed>,
    start: Printed,
    within: Seq<Printed>,
    end: Printed,
    spaces: u32,
)
    requires
        indents(before).len() > 0,
        start.op == PrintOp::IndentAdd(spaces),
        end.op == PrintOp::IndentSub(spaces),
        indents(before.push(start) + within) == indents(before.push(start)),
    ensures
        indents((before.push(start) + within).push(end)) == indents(before),
{
    let a = before.push(start);
    assert(a.drop_last() == before);
    let c = (a + within).push(end);
    assert(c.drop_last() == a + within);
    assert(indents(c) == indents(before));
}

/// New tabstops are set one by one, behind a reset.
pub proof fn law_tabstops_are_set_behind_a_reset(widths: Seq<u32>, i: int)
    ensures
        tabstop_ops(widths).len() == widths.len() + 1,
        tabstop_ops(widths)[0] == PrintOp::TabstopsReset,
        0 <= i < widths.len() ==> tabstop_ops(widths)[i + 1] == PrintOp::TabstopPush(widths[i]),
{
}

/// An operation is recorded behind those before it, under the setting of its time, and so are several
/// under one setting.
pub proof fn law_operations_keep_their_setting(p: Printbuf, op: PrintOp, ops: Seq<PrintOp>, i: int)
    ensures
        p.printing(op).len() == p.recorded().len() + 1,
        p.printing(op).drop_last() == p.recorded(),
        p.printing(op).last().op == op,
        p.printing(op).last().human_readable_units == p.flags().human_readable_units,
        all_under(ops, p.flags().human_readable_units).len() == ops.len(),
        0 <= i < ops.len() ==> all_under(ops, p.flags().human_readable_units)[i].op == ops[i]
            && all_under(ops, p.flags().human_readable_units)[i].human_readable_units
            == p.flags().human_readable_units,
{
    assert(p.printing(op).drop_last() == p.recorded());
}

} // verus!
