//! Low-level command/data framing for the panel controller.
//!
//! Everything the driver does to the hardware is modelled as a sequence of
//! [`LcdOp`] steps. A `Command` byte travels over the bus with the
//! data/command line held low, a `Data` byte with the line held high; the
//! remaining steps toggle the reset and backlight lines or pause. An
//! unverified executor replays a transcript onto the physical lines, one step
//! at a time, in order.

use crate::codec::{word_hi, word_lo};
use vstd::prelude::*;

verus! {

/// One atomic step of the wire protocol.
#[derive(Clone, Copy, Debug, PartialEq, Eq, Structural)]
pub enum LcdOp {
    /// Pull the data/command line low, then send one byte over the bus.
    Command(u8),
    /// Pull the data/command line high, then send one byte over the bus.
    Data(u8),
    /// Pause for at least the given number of milliseconds.
    DelayMs(u64),
    /// Pull the reset line low.
    ResetLow,
    /// Pull the reset line high.
    ResetHigh,
    /// Pull the backlight enable line high.
    BacklightOn,
}

/// The bytes of a transcript that actually cross the serial bus, each paired
/// with the level of the data/command line while it is sent (`false` = low =
/// command, `true` = high = data). Delays and line toggles contribute nothing.
pub open spec fn bus_bytes(ops: Seq<LcdOp>) -> Seq<(bool, u8)>
    decreases ops.len(),
{
    if ops.len() == 0 {
        Seq::empty()
    } else {
        let head = match ops[0] {
            LcdOp::Command(b) => seq![(false, b)],
            LcdOp::Data(b) => seq![(true, b)],
            _ => Seq::<(bool, u8)>::empty(),
        };
        head + bus_bytes(ops.drop_first())
    }
}

/// A run of parameter bytes, each sent as data.
pub open spec fn data_run(params: Seq<u8>) -> Seq<LcdOp> {
    Seq::new(params.len(), |k: int| LcdOp::Data(params[k]))
}

/// One register write: the command byte followed by its parameter bytes.
pub open spec fn reg_write_ops(cmd: u8, params: Seq<u8>) -> Seq<LcdOp> {
    seq![LcdOp::Command(cmd)] + data_run(params)
}

/// The transcript of a whole register table, one register write after the
/// other. Bring-up tables differ per controller variant; the emission order
/// does not.
pub open spec fn table_ops(table: Seq<(u8, Seq<u8>)>) -> Seq<LcdOp>
    decreases table.len(),
{
    if table.len() == 0 {
        Seq::empty()
    } else {
        reg_write_ops(table[0].0, table[0].1) + table_ops(table.drop_first())
    }
}

/// The bus trace of one register write: the command byte with the line low,
/// then each parameter byte with the line high.
pub open spec fn reg_write_trace(cmd: u8, params: Seq<u8>) -> Seq<(bool, u8)> {
    seq![(false, cmd)] + Seq::new(params.len(), |k: int| (true, params[k]))
}

/// The bus trace of a whole register table.
pub open spec fn table_trace(table: Seq<(u8, Seq<u8>)>) -> Seq<(bool, u8)>
    decreases table.len(),
{
    if table.len() == 0 {
        Seq::empty()
    } else {
        reg_write_trace(table[0].0, table[0].1) + table_trace(table.drop_first())
    }
}

/// `bus_bytes` distributes over concatenation of transcripts.
pub proof fn lemma_bus_bytes_concat(a: Seq<LcdOp>, b: Seq<LcdOp>)
    ensures
        bus_bytes(a + b) == bus_bytes(a) + bus_bytes(b),
    decreases a.len(),
{
    if a.len() == 0 {
        assert(a + b =~= b);
        assert(bus_bytes(a) + bus_bytes(b) =~= bus_bytes(b));
    } else {
        assert((a + b).drop_first() =~= a.drop_first() + b);
        lemma_bus_bytes_concat(a.drop_first(), b);
        assert(bus_bytes(a + b) =~= bus_bytes(a) + bus_bytes(b));
    }
}

/// The bus trace of a data run is exactly its bytes, all with the line high.
pub proof fn lemma_data_run_trace(params: Seq<u8>)
    ensures
        bus_bytes(data_run(params)) == Seq::new(params.len(), |k: int| (true, params[k])),
    decreases params.len(),
{
    if params.len() == 0 {
        assert(bus_bytes(data_run(params)) =~= Seq::new(
            params.len(),
            |k: int| (true, params[k]),
        ));
    } else {
        assert(data_run(params).drop_first() =~= data_run(params.drop_first()));
        lemma_data_run_trace(params.drop_first());
        assert(bus_bytes(data_run(params)) =~= Seq::new(
            params.len(),
            |k: int| (true, params[k]),
        ));
    }
}

/// The bus trace of one register write: the line is low for exactly the one
/// command byte and high for every following parameter byte.
pub proof fn lemma_reg_write_trace(cmd: u8, params: Seq<u8>)
    ensures
        bus_bytes(reg_write_ops(cmd, params)) == reg_write_trace(cmd, params),
{
    assert(reg_write_ops(cmd, params).drop_first() =~= data_run(params));
    lemma_data_run_trace(params);
    assert(bus_bytes(reg_write_ops(cmd, params)) =~= reg_write_trace(cmd, params));
}

/// The bus trace of a register table is the concatenation of its register
/// write traces: each register contributes its command byte with the line
/// low, then its parameter bytes with the line high, until the next command.
pub proof fn lemma_table_trace(table: Seq<(u8, Seq<u8>)>)
    ensures
        bus_bytes(table_ops(table)) == table_trace(table),
    decreases table.len(),
{
    if table.len() == 0 {
    } else {
        lemma_bus_bytes_concat(reg_write_ops(table[0].0, table[0].1), table_ops(
            table.drop_first(),
        ));
        lemma_reg_write_trace(table[0].0, table[0].1);
        lemma_table_trace(table.drop_first());
    }
}

/// Law: a register table never puts a data byte on the bus before its
/// preceding command byte. In the trace of any non-empty table the first bus
/// byte is a command byte, so every data byte is preceded by one.
pub proof fn lemma_table_no_data_before_command(table: Seq<(u8, Seq<u8>)>)
    ensures
        table.len() > 0 ==> bus_bytes(table_ops(table)).len() > 0 && bus_bytes(table_ops(table))[0]
            == (false, table[0].0),
        forall|i: int|
            0 <= i < bus_bytes(table_ops(table)).len() && bus_bytes(table_ops(table))[i].0
                ==> exists|j: int|
                0 <= j < i && !bus_bytes(table_ops(table))[j].0,
{
    lemma_table_trace(table);
    if table.len() > 0 {
        assert(table_trace(table)[0] == (false, table[0].0));
        assert forall|i: int|
            0 <= i < bus_bytes(table_ops(table)).len() && bus_bytes(table_ops(table))[i].0
        implies exists|j: int| 0 <= j < i && !bus_bytes(table_ops(table))[j].0 by {
            assert(!bus_bytes(table_ops(table))[0].0);
        }
    }
}

/// The column-address-set (0x2A) and row-address-set (0x2B) register writes
/// that select the rectangle from column `x0` to `x1` and row `y0` to `y1`.
/// Each 16-bit address travels as two parameter bytes, high byte first.
pub open spec fn window_ops_spec(x0: u16, y0: u16, x1: u16, y1: u16) -> Seq<LcdOp> {
    reg_write_ops(0x2A, seq![word_hi(x0), word_lo(x0), word_hi(x1), word_lo(x1)])
        + reg_write_ops(0x2B, seq![word_hi(y0), word_lo(y0), word_hi(y1), word_lo(y1)])
}

/// Appends the column/row address window from (`x0`, `y0`) to (`x1`, `y1`),
/// the rectangle that a following memory-write command fills.
pub fn set_window(ops: &mut Vec<LcdOp>, x0: u16, y0: u16, x1: u16, y1: u16)
    ensures
        final(ops)@ == old(ops)@ + window_ops_spec(x0, y0, x1, y1),
{
    let xs = crate::codec::word_bytes(x0);
    let xe = crate::codec::word_bytes(x1);
    let ys = crate::codec::word_bytes(y0);
    let ye = crate::codec::word_bytes(y1);
    push_reg_write(ops, 0x2A, &[xs.0, xs.1, xe.0, xe.1]);
    push_reg_write(ops, 0x2B, &[ys.0, ys.1, ye.0, ye.1]);
    proof {
        assert(ops@ =~= old(ops)@ + window_ops_spec(x0, y0, x1, y1));
    }
}

/// Appends one command step.
pub fn push_command(ops: &mut Vec<LcdOp>, cmd: u8)
    ensures
        final(ops)@ == old(ops)@ + seq![LcdOp::Command(cmd)],
{
    ops.push(LcdOp::Command(cmd));
}

/// Appends one data step.
pub fn push_data(ops: &mut Vec<LcdOp>, data: u8)
    ensures
        final(ops)@ == old(ops)@ + seq![LcdOp::Data(data)],
{
    ops.push(LcdOp::Data(data));
}

/// Appends a whole register write: the command byte, then its parameters.
pub fn push_reg_write(ops: &mut Vec<LcdOp>, cmd: u8, params: &[u8])
    ensures
        final(ops)@ == old(ops)@ + reg_write_ops(cmd, params@),
{
    ops.push(LcdOp::Command(cmd));
    let mut i: usize = 0;
    while i < params.len()
        invariant
            i <= params@.len(),
            ops@ == old(ops)@ + seq![LcdOp::Command(cmd)] + data_run(params@.take(i as int)),
        decreases params@.len() - i,
    {
        ops.push(LcdOp::Data(params[i]));
        proof {
            assert(data_run(params@.take(i + 1)) =~= data_run(params@.take(i as int)).push(
                LcdOp::Data(params@[i as int]),
            ));
        }
        i = i + 1;
    }
    proof {
        assert(params@.take(params@.len() as int) =~= params@);
        assert(ops@ =~= old(ops)@ + reg_write_ops(cmd, params@));
    }
}

} // verus!
