//! Dynamically typed values of the register machine.

use vstd::prelude::*;
use crate::dmm::collect::{Collect, Trace};
use crate::dmm::gc::Gc;

verus! {

/// The dynamic type of a value.
#[derive(Debug, Clone, Copy, PartialEq, Eq, Structural)]
pub enum ValueType {
    Nil,
    Boolean,
    Integer,
    Float,
    String,
    Userdata,
    Function,
    Thread,
    Table,
}

/// A value held in a register.
///
/// A floating-point number is carried as its IEEE 754 bit pattern, and a
/// reference to a heap object as that object's address.
#[derive(Debug, Clone, Copy, PartialEq, Eq, Structural, Hash)]
pub enum Value {
    Nil,
    Boolean(bool),
    Integer(i64),
    Float(u64),
    String(usize),
    Userdata(usize),
    Function(usize),
    Thread(usize),
    Table(usize),
}

impl Value {
    /// The address of the heap object that the value refers to, if it refers
    /// to one.
    pub open spec fn referent(self) -> Option<usize> {
        match self {
            Value::String(a) => Some(a),
            Value::Userdata(a) => Some(a),
            Value::Function(a) => Some(a),
            Value::Thread(a) => Some(a),
            Value::Table(a) => Some(a),
            _ => None,
        }
    }

    /// Returns a strong pointer to the heap object that the value refers to,
    /// if it refers to one.
    pub fn as_gc(self) -> (r: Option<Gc<()>>)
        ensures
            match r {
                Some(gc) => self.referent() == Some(gc.addr()),
                None => self.referent() is None,
            },
    {
        match self {
            Value::String(a) => Some(Gc::from_ptr(a)),
            Value::Userdata(a) => Some(Gc::from_ptr(a)),
            Value::Function(a) => Some(Gc::from_ptr(a)),
            Value::Thread(a) => Some(Gc::from_ptr(a)),
            Value::Table(a) => Some(Gc::from_ptr(a)),
            _ => None,
        }
    }

    /// The dynamic type of a value, as a specification.
    pub open spec fn type_of(self) -> ValueType {
        match self {
            Value::Nil => ValueType::Nil,
            Value::Boolean(_) => ValueType::Boolean,
            Value::Integer(_) => ValueType::Integer,
            Value::Float(_) => ValueType::Float,
            Value::String(_) => ValueType::String,
            Value::Userdata(_) => ValueType::Userdata,
            Value::Function(_) => ValueType::Function,
            Value::Thread(_) => ValueType::Thread,
            Value::Table(_) => ValueType::Table,
        }
    }

    /// The value is an integer or a floating-point number.
    pub open spec fn is_number(self) -> bool {
        self is Integer || self is Float
    }

    /// Returns the dynamic type of the value.
    pub fn ty(self) -> (t: ValueType)
        ensures
            t == self.type_of(),
    {
        match self {
            Value::Nil => ValueType::Nil,
            Value::Boolean(_) => ValueType::Boolean,
            Value::Integer(_) => ValueType::Integer,
            Value::Float(_) => ValueType::Float,
            Value::String(_) => ValueType::String,
            Value::Userdata(_) => ValueType::Userdata,
            Value::Function(_) => ValueType::Function,
            Value::Thread(_) => ValueType::Thread,
            Value::Table(_) => ValueType::Table,
        }
    }

    /// Makes a boolean value.
    pub fn new_boolean(v: bool) -> (r: Value)
        ensures
            r == Value::Boolean(v),
    {
        Value::Boolean(v)
    }

    /// The payload of a value that is known to be a boolean.
    pub fn as_boolean(self) -> (v: bool)
        requires
            self is Boolean,
        ensures
            self == Value::Boolean(v),
    {
        match self {
            Value::Boolean(v) => v,
            _ => unreached(),
        }
    }

    /// The payload of the value if it is a boolean.
    pub fn get_boolean(self) -> (r: Option<bool>)
        ensures
            r == match self {
                Value::Boolean(v) => Some(v),
                _ => None,
            },
    {
        match self {
            Value::Boolean(v) => Some(v),
            _ => None,
        }
    }

    /// The payload of the value if it is a boolean, an error otherwise.
    pub fn try_boolean(self) -> (r: Result<bool, ()>)
        ensures
            r == match self {
                Value::Boolean(v) => Ok::<bool, ()>(v),
                _ => Err::<bool, ()>(()),
            },
    {
        match self {
            Value::Boolean(v) => Ok(v),
            _ => Err(()),
        }
    }

    /// Makes an integer value.
    pub fn new_integer(v: i64) -> (r: Value)
        ensures
            r == Value::Integer(v),
    {
        Value::Integer(v)
    }

    /// The payload of a value that is known to be an integer.
    pub fn as_integer(self) -> (v: i64)
        requires
            self is Integer,
        ensures
            self == Value::Integer(v),
    {
        match self {
            Value::Integer(v) => v,
            _ => unreached(),
        }
    }

    /// The payload of the value if it is an integer.
    pub fn get_integer(self) -> (r: Option<i64>)
        ensures
            r == match self {
                Value::Integer(v) => Some(v),
                _ => None,
            },
    {
        match self {
            Value::Integer(v) => Some(v),
            _ => None,
        }
    }

    /// The payload of the value if it is an integer, an error otherwise.
    pub fn try_integer(self) -> (r: Result<i64, ()>)
        ensures
            r == match self {
                Value::Integer(v) => Ok::<i64, ()>(v),
                _ => Err::<i64, ()>(()),
            },
    {
        match self {
            Value::Integer(v) => Ok(v),
            _ => Err(()),
        }
    }

    /// Makes a floating-point number value.
    pub fn new_float(v: u64) -> (r: Value)
        ensures
            r == Value::Float(v),
    {
        Value::Float(v)
    }

    /// The payload of a value that is known to be a floating-point number, as its bit pattern.
    pub fn as_float(self) -> (v: u64)
        requires
            self is Float,
        ensures
            self == Value::Float(v),
    {
        match self {
            Value::Float(v) => v,
            _ => unreached(),
        }
    }

    /// The payload of the value if it is a floating-point number, as its bit pattern.
    pub fn get_float(self) -> (r: Option<u64>)
        ensures
            r == match self {
                Value::Float(v) => Some(v),
                _ => None,
            },
    {
        match self {
            Value::Float(v) => Some(v),
            _ => None,
        }
    }

    /// The payload of the value if it is a floating-point number, as its bit pattern, an error otherwise.
    pub fn try_float(self) -> (r: Result<u64, ()>)
        ensures
            r == match self {
                Value::Float(v) => Ok::<u64, ()>(v),
                _ => Err::<u64, ()>(()),
            },
    {
        match self {
            Value::Float(v) => Ok(v),
            _ => Err(()),
        }
    }

    /// Makes a string value.
    pub fn new_string(v: usize) -> (r: Value)
        ensures
            r == Value::String(v),
    {
        Value::String(v)
    }

    /// The payload of a value that is known to be a string, as its address.
    pub fn as_string(self) -> (v: usize)
        requires
            self is String,
        ensures
            self == Value::String(v),
    {
        match self {
            Value::String(v) => v,
            _ => unreached(),
        }
    }

    /// The payload of the value if it is a string, as its address.
    pub fn get_string(self) -> (r: Option<usize>)
        ensures
            r == match self {
                Value::String(v) => Some(v),
                _ => None,
            },
    {
        match self {
            Value::String(v) => Some(v),
            _ => None,
        }
    }

    /// The payload of the value if it is a string, as its address, an error otherwise.
    pub fn try_string(self) -> (r: Result<usize, ()>)
        ensures
            r == match self {
                Value::String(v) => Ok::<usize, ()>(v),
                _ => Err::<usize, ()>(()),
            },
    {
        match self {
            Value::String(v) => Ok(v),
            _ => Err(()),
        }
    }

    /// Makes userdata value.
    pub fn new_userdata(v: usize) -> (r: Value)
        ensures
            r == Value::Userdata(v),
    {
        Value::Userdata(v)
    }

    /// The payload of a value that is known to be userdata, as its address.
    pub fn as_userdata(self) -> (v: usize)
        requires
            self is Userdata,
        ensures
            self == Value::Userdata(v),
    {
        match self {
            Value::Userdata(v) => v,
            _ => unreached(),
        }
    }

    /// The payload of the value if it is userdata, as its address.
    pub fn get_userdata(self) -> (r: Option<usize>)
        ensures
            r == match self {
                Value::Userdata(v) => Some(v),
                _ => None,
            },
    {
        match self {
            Value::Userdata(v) => Some(v),
            _ => None,
        }
    }

    /// The payload of the value if it is userdata, as its address, an error otherwise.
    pub fn try_userdata(self) -> (r: Result<usize, ()>)
        ensures
            r == match self {
                Value::Userdata(v) => Ok::<usize, ()>(v),
                _ => Err::<usize, ()>(()),
            },
    {
        match self {
            Value::Userdata(v) => Ok(v),
            _ => Err(()),
        }
    }

    /// Makes a function value.
    pub fn new_function(v: usize) -> (r: Value)
        ensures
            r == Value::Function(v),
    {
        Value::Function(v)
    }

    /// The payload of a value that is known to be a function, as its address.
    pub fn as_function(self) -> (v: usize)
        requires
            self is Function,
        ensures
            self == Value::Function(v),
    {
        match self {
            Value::Function(v) => v,
            _ => unreached(),
        }
    }

    /// The payload of the value if it is a function, as its address.
    pub fn get_function(self) -> (r: Option<usize>)
        ensures
            r == match self {
                Value::Function(v) => Some(v),
                _ => None,
            },
    {
        match self {
            Value::Function(v) => Some(v),
            _ => None,
        }
    }

    /// The payload of the value if it is a function, as its address, an error otherwise.
    pub fn try_function(self) -> (r: Result<usize, ()>)
        ensures
            r == match self {
                Value::Function(v) => Ok::<usize, ()>(v),
                _ => Err::<usize, ()>(()),
            },
    {
        match self {
            Value::Function(v) => Ok(v),
            _ => Err(()),
        }
    }

    /// Makes a thread value.
    pub fn new_thread(v: usize) -> (r: Value)
        ensures
            r == Value::Thread(v),
    {
        Value::Thread(v)
    }

    /// The payload of a value that is known to be a thread, as its address.
    pub fn as_thread(self) -> (v: usize)
        requires
            self is Thread,
        ensures
            self == Value::Thread(v),
    {
        match self {
            Value::Thread(v) => v,
            _ => unreached(),
        }
    }

    /// The payload of the value if it is a thread, as its address.
    pub fn get_thread(self) -> (r: Option<usize>)
        ensures
            r == match self {
                Value::Thread(v) => Some(v),
                _ => None,
            },
    {
        match self {
            Value::Thread(v) => Some(v),
            _ => None,
        }
    }

    /// The payload of the value if it is a thread, as its address, an error otherwise.
    pub fn try_thread(self) -> (r: Result<usize, ()>)
        ensures
            r == match self {
                Value::Thread(v) => Ok::<usize, ()>(v),
                _ => Err::<usize, ()>(()),
            },
    {
        match self {
            Value::Thread(v) => Ok(v),
            _ => Err(()),
        }
    }

    /// Makes a table value.
    pub fn new_table(v: usize) -> (r: Value)
        ensures
            r == Value::Table(v),
    {
        Value::Table(v)
    }

    /// The payload of a value that is known to be a table, as its address.
    pub fn as_table(self) -> (v: usize)
        requires
            self is Table,
        ensures
            self == Value::Table(v),
    {
        match self {
            Value::Table(v) => v,
            _ => unreached(),
        }
    }

    /// The payload of the value if it is a table, as its address.
    pub fn get_table(self) -> (r: Option<usize>)
        ensures
            r == match self {
                Value::Table(v) => Some(v),
                _ => None,
            },
    {
        match self {
            Value::Table(v) => Some(v),
            _ => None,
        }
    }

    /// The payload of the value if it is a table, as its address, an error otherwise.
    pub fn try_table(self) -> (r: Result<usize, ()>)
        ensures
            r == match self {
                Value::Table(v) => Ok::<usize, ()>(v),
                _ => Err::<usize, ()>(()),
            },
    {
        match self {
            Value::Table(v) => Ok(v),
            _ => Err(()),
        }
    }
}

impl Collect for Value {
    open spec fn edges(&self) -> Set<usize> {
        match self.referent() {
            Some(a) => set![a],
            None => Set::empty(),
        }
    }

    open spec fn pointer_count(&self, a: usize) -> nat {
        if self.referent() == Some(a) {
            1
        } else {
            0
        }
    }

    open spec fn needs_trace_spec() -> bool {
        true
    }

    fn needs_trace() -> (b: bool) {
        true
    }

    proof fn lemma_no_trace_no_edges(&self) {
    }

    /// Shows the heap object that the value refers to, once, if it refers to
    /// one.
    fn trace(&self, cc: &mut Trace)
        ensures
            final(cc).shown() == match self.referent() {
                Some(a) => old(cc).shown().push(a),
                None => old(cc).shown(),
            },
    {
        match self.as_gc() {
            Some(gc) => {
                cc.trace_gc(gc);
            },
            None => {},
        }
        assert(cc.seen() =~= old(cc).seen().union(self.edges()));
    }
}

} // verus!
