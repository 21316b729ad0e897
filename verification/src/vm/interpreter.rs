use super::bytecode::ops::{BOp, DecodeError};
use super::bytecode::types::Addr;
use super::bytecode::util::Cursor;
use super::machine::{Frame, Machine, SymbolTable, ValuePointer};
use super::model::{
    enter, fetch, perform, resized, resumed, run, step, EventView, ExitView, FrameView,
    MachineView, PrimitiveFn, TableValue, NULL, PRIMITIVE_BASE,
};
pub use super::model::RuntimeError;
use vstd::prelude::*;

verus! {

/// The identifier of the primitive that prints its argument, bound by
/// `add_std`.
pub const PRINTLN: u32 = 0;

/// What became of a step.
pub enum Event {
    /// The machine can go on.
    Continue,
    /// The last frame has returned.
    Halt,
    /// A primitive is called: its identifier and the frame with its
    /// arguments.
    Primitive { id: u32, frame: Frame },
}

impl View for Event {
    type V = EventView;

    open spec fn view(&self) -> EventView {
        match self {
            Event::Continue => EventView::Continue,
            Event::Halt => EventView::Halt,
            Event::Primitive { id, frame } => EventView::Primitive { id: *id, frame: frame@ },
        }
    }
}

/// How a run of the machine ended.
pub enum Exit {
    /// The last frame has returned.
    Halted,
    /// A primitive is called: the host is to run it and hand its result back
    /// with `resume`.
    Primitive { id: u32, frame: Frame },
    /// The steps that were allowed are used up.
    OutOfBudget,
}

impl View for Exit {
    type V = ExitView;

    open spec fn view(&self) -> ExitView {
        match self {
            Exit::Halted => ExitView::Halted,
            Exit::Primitive { id, frame } => ExitView::Primitive { id: *id, frame: frame@ },
            Exit::OutOfBudget => ExitView::OutOfBudget,
        }
    }
}

pub trait Execute {
    /// What the machine holds.
    spec fn state(&self) -> MachineView;

    /// Runs the machine for at most `budget` steps: until its last frame
    /// returns, a primitive is called, a step is an error or the steps are
    /// used up. After an error the machine is as it was before the step that
    /// failed.
    fn execute(&mut self, budget: u64) -> (result: Result<Exit, RuntimeError>)
        ensures
            final(self).state() == run(old(self).state(), budget as nat).0,
            match run(old(self).state(), budget as nat).1 {
                Ok(exit) => result matches Ok(e) && e@ == exit,
                Err(error) => result == Err::<Exit, RuntimeError>(error),
            },
    ;
}

impl Machine {
    pub fn new() -> (machine: Machine)
        ensures
            machine@ == (MachineView {
                code: Seq::empty(),
                call_stack: Seq::empty(),
                ip: 0,
                stack: Seq::empty(),
                symbols: Map::empty(),
                cells: Seq::empty(),
            }),
    {
        let machine = Machine {
            code: Vec::new(),
            call_stack: Vec::new(),
            ip: 0x0,
            stack: Vec::new(),
            symbol_table: SymbolTable::new(),
            cells: Vec::new(),
        };
        assert(machine@.call_stack =~= Seq::empty());
        machine
    }

    /// Binds the primitives of the standard library: `_.std.println`.
    pub fn add_std(&mut self)
        ensures
            final(self)@ == (MachineView {
                symbols: old(self)@.symbols.insert(
                    "_.std.println"@,
                    TableValue::Primitive(PrimitiveFn(PRINTLN)),
                ),
                ..old(self)@
            }),
    {
        self.symbol_table.set_symbol(
            &"_.std.println".to_owned(),
            TableValue::with_fn(PrimitiveFn(PRINTLN)),
        );
    }

    /// The frame on top of the call stack, to be changed.
    #[inline]
    pub fn get_stack_top_mut(&mut self) -> (frame: &mut Frame)
        requires
            old(self).call_stack@.len() > 0,
        ensures
            *frame == old(self).call_stack@.last(),
            final(self).call_stack@ == old(self).call_stack@.drop_last().push(*final(frame)),
            final(self).code == old(self).code,
            final(self).ip == old(self).ip,
            final(self).stack == old(self).stack,
            final(self).symbol_table == old(self).symbol_table,
            final(self).cells == old(self).cells,
    {
        let last: usize = self.call_stack.len() - 1;
        &mut self.call_stack[last]
    }

    /// The frame on top of the call stack.
    #[inline]
    pub fn get_stack_top(&self) -> (frame: &Frame)
        requires
            self.call_stack@.len() > 0,
        ensures
            *frame == self.call_stack@.last(),
    {
        &self.call_stack[self.call_stack.len() - 1]
    }

    /// Pop `num` entries off the top of the stack into a `Vec`. The first item in the vector
    /// will be the lowest item on the stack and the last item in the vector will be the highest
    /// (ie. at the top) of the stack.
    #[inline]
    pub fn pop_stack_into_vec(&mut self, num: usize) -> (out: Vec<ValuePointer>)
        requires
            num <= old(self).stack@.len(),
        ensures
            out@ == old(self).stack@.skip(old(self).stack@.len() - num),
            final(self)@ == (MachineView {
                stack: old(self).stack@.take(old(self).stack@.len() - num),
                ..old(self)@
            }),
    {
        let at: usize = self.stack.len() - num;
        let out = self.stack.split_off(at);
        assert(self.stack@ =~= old(self).stack@.take(at as int));
        assert(out@ =~= old(self).stack@.skip(at as int));
        out
    }

    /// Pop `num_args` off the stack and build a stack frame with the given `return_addr`.
    #[inline]
    pub fn build_frame(&mut self, return_addr: u64, num_args: usize) -> (frame: Frame)
        requires
            num_args <= old(self).stack@.len(),
        ensures
            frame@ == (FrameView {
                return_addr: return_addr,
                args: old(self).stack@.skip(old(self).stack@.len() - num_args),
                slots: Seq::empty(),
            }),
            final(self)@ == (MachineView {
                stack: old(self).stack@.take(old(self).stack@.len() - num_args),
                ..old(self)@
            }),
    {
        Frame {
            return_addr: return_addr,
            args: self.pop_stack_into_vec(num_args),
            slots: Vec::new(),
        }
    }

    /// The op at the instruction pointer and the address of the op after it.
    pub fn fetch(&self) -> (result: Result<(BOp, Addr), RuntimeError>)
        ensures
            result == fetch(self@),
    {
        let mut cursor = Cursor::new(&self.code);
        cursor.set_position(self.ip);
        match BOp::from_binary(&mut cursor) {
            Ok(op) => Ok((op, cursor.position())),
            Err(DecodeError::UnknownOpcode(opcode)) => Err(RuntimeError::UnknownOpcode(opcode)),
            Err(DecodeError::UnexpectedEnd) => Err(RuntimeError::UnexpectedEndOfCode),
        }
    }

    /// Makes the call to `target` with the frame: a primitive gets the
    /// frame, a function of the code has it pushed and is entered.
    fn enter(&mut self, frame: Frame, target: Addr, next: Addr) -> (event: Event)
        requires
            frame.return_addr == next,
            frame.slots@.len() == 0,
        ensures
            (final(self)@, event@) == enter(
                old(self)@,
                old(self)@.stack,
                frame@.args,
                target,
                next,
            ),
    {
        if target >= PRIMITIVE_BASE && target - PRIMITIVE_BASE <= u32::MAX as u64 {
            self.ip = next;
            assert(frame@.slots =~= Seq::empty());
            Event::Primitive { id: (target - PRIMITIVE_BASE) as u32, frame: frame }
        } else {
            assert(frame@.slots =~= Seq::empty());
            self.call_stack.push(frame);
            self.ip = target;
            assert(self@.call_stack =~= old(self)@.call_stack.push(frame@));
            Event::Continue
        }
    }

    /// Does the op, `next` being the address of the op after it. Where the
    /// op cannot be done the machine stays as it is.
    pub fn perform(&mut self, op: BOp, next: Addr) -> (result: Result<Event, RuntimeError>)
        ensures
            match perform(old(self)@, op, next) {
                Ok((machine, event)) => result matches Ok(e) && e@ == event && final(self)@
                    == machine,
                Err(error) => result == Err::<Event, RuntimeError>(error) && final(self)@ == old(
                    self,
                )@,
            },
    {
        match op {
            BOp::FnEntry(fn_entry) => {
                if self.call_stack.len() == 0 {
                    return Err(RuntimeError::StackUnderflow);
                }
                let frame = self.get_stack_top_mut();
                let ghost slots = frame.slots@;
                frame.slots.resize(fn_entry.num_locals as usize, NULL);
                assert(frame.slots@ =~= resized(slots, fn_entry.num_locals as int));
                self.ip = next;
                assert(self@.call_stack =~= old(self)@.call_stack.drop_last().push(
                    FrameView {
                        slots: resized(slots, fn_entry.num_locals as int),
                        ..old(self)@.call_stack.last()
                    },
                ));
                Ok(Event::Continue)
            },
            BOp::GetLocal(get_local) => {
                if self.call_stack.len() == 0 {
                    return Err(RuntimeError::StackUnderflow);
                }
                let frame = self.get_stack_top();
                if get_local.idx as usize >= frame.slots.len() {
                    return Err(RuntimeError::LocalIndexOutOfRange(get_local.idx));
                }
                let value: ValuePointer = frame.slots[get_local.idx as usize];
                self.stack.push(value);
                self.ip = next;
                Ok(Event::Continue)
            },
            BOp::SetLocal(set_local) => {
                if self.stack.len() == 0 || self.call_stack.len() == 0 {
                    return Err(RuntimeError::StackUnderflow);
                }
                if set_local.idx as usize >= self.get_stack_top().slots.len() {
                    return Err(RuntimeError::LocalIndexOutOfRange(set_local.idx));
                }
                let value: ValuePointer = self.stack.pop().unwrap();
                let frame = self.get_stack_top_mut();
                let ghost slots = frame.slots@;
                frame.slots[set_local.idx as usize] = value;
                self.ip = next;
                assert(self@.call_stack =~= old(self)@.call_stack.drop_last().push(
                    FrameView {
                        slots: slots.update(set_local.idx as int, value),
                        ..old(self)@.call_stack.last()
                    },
                ));
                assert(self@.stack =~= old(self)@.stack.drop_last());
                Ok(Event::Continue)
            },
            BOp::Call(call) => {
                if self.stack.len() < call.num_args as usize {
                    return Err(RuntimeError::StackUnderflow);
                }
                let frame = self.build_frame(next, call.num_args as usize);
                Ok(self.enter(frame, call.addr, next))
            },
            BOp::Invoke(invoke) => {
                let num_args: usize = invoke.num_args as usize;
                if self.stack.len() < num_args + 1 {
                    return Err(RuntimeError::StackUnderflow);
                }
                // The boxed address lies below the arguments
                let pointer: ValuePointer = self.stack[self.stack.len() - num_args - 1];
                if pointer == NULL {
                    return Err(RuntimeError::NullDereference);
                }
                if pointer > self.cells.len() as u64 {
                    return Err(RuntimeError::InvalidPointer(pointer));
                }
                let target: Addr = self.cells[(pointer - 1) as usize];
                let frame = self.build_frame(next, num_args);
                self.stack.pop();
                assert(self@.stack =~= old(self)@.stack.take(
                    old(self)@.stack.len() - num_args - 1,
                ));
                Ok(self.enter(frame, target, next))
            },
            BOp::PushAddress(push_address) => {
                self.cells.push(push_address.addr);
                let pointer: ValuePointer = self.cells.len() as u64;
                self.stack.push(pointer);
                self.ip = next;
                Ok(Event::Continue)
            },
            BOp::BranchIf(branch_if) => {
                match self.stack.pop() {
                    None => Err(RuntimeError::StackUnderflow),
                    Some(value) => {
                        self.ip = if value == NULL {
                            branch_if.dest
                        } else {
                            next
                        };
                        assert(self@.stack =~= old(self)@.stack.drop_last());
                        Ok(Event::Continue)
                    },
                }
            },
            BOp::BranchIfNot(branch_if_not) => {
                match self.stack.pop() {
                    None => Err(RuntimeError::StackUnderflow),
                    Some(value) => {
                        self.ip = if value != NULL {
                            branch_if_not.dest
                        } else {
                            next
                        };
                        assert(self@.stack =~= old(self)@.stack.drop_last());
                        Ok(Event::Continue)
                    },
                }
            },
            BOp::LoadConst(load_const) => {
                self.stack.push(load_const.id);
                self.ip = next;
                Ok(Event::Continue)
            },
            BOp::Return => {
                match self.call_stack.pop() {
                    None => Err(RuntimeError::StackUnderflow),
                    Some(frame) => {
                        self.ip = frame.return_addr;
                        assert(self@.call_stack =~= old(self)@.call_stack.drop_last());
                        if self.call_stack.len() == 0 {
                            Ok(Event::Halt)
                        } else {
                            Ok(Event::Continue)
                        }
                    },
                }
            },
            BOp::Pop => {
                match self.stack.pop() {
                    None => Err(RuntimeError::StackUnderflow),
                    Some(_) => {
                        self.ip = next;
                        assert(self@.stack =~= old(self)@.stack.drop_last());
                        Ok(Event::Continue)
                    },
                }
            },
            BOp::Noop => {
                self.ip = next;
                Ok(Event::Continue)
            },
        }
    }

    /// One step of the machine: the op at the instruction pointer is read
    /// and done. Where that is an error the machine stays as it is.
    pub fn step(&mut self) -> (result: Result<Event, RuntimeError>)
        ensures
            match step(old(self)@) {
                Ok((machine, event)) => result matches Ok(e) && e@ == event && final(self)@
                    == machine,
                Err(error) => result == Err::<Event, RuntimeError>(error) && final(self)@ == old(
                    self,
                )@,
            },
    {
        match self.fetch() {
            Ok((op, next)) => self.perform(op, next),
            Err(error) => Err(error),
        }
    }

    /// Hands the result of a primitive back to the machine: the value that
    /// the primitive has given goes onto the stack, or the null pointer
    /// where it has given none.
    pub fn resume(&mut self, result: Option<ValuePointer>)
        ensures
            final(self)@ == resumed(old(self)@, result),
    {
        let value: ValuePointer = match result {
            Some(value) => value,
            None => NULL,
        };
        self.stack.push(value);
    }
}

impl Execute for Machine {
    open spec fn state(&self) -> MachineView {
        self@
    }

    fn execute(&mut self, budget: u64) -> (result: Result<Exit, RuntimeError>) {
        let mut left: u64 = budget;
        while left > 0
            invariant
                run(old(self)@, budget as nat) == run(self@, left as nat),
            decreases left,
        {
            match self.step() {
                Err(error) => {
                    return Err(error);
                },
                Ok(Event::Continue) => {},
                Ok(Event::Halt) => {
                    return Ok(Exit::Halted);
                },
                Ok(Event::Primitive { id, frame }) => {
                    return Ok(Exit::Primitive { id: id, frame: frame });
                },
            }
            left = left - 1;
        }
        Ok(Exit::OutOfBudget)
    }
}

} // verus!
