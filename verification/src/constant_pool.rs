//! The constant pool: an append-only table of tagged entries, with typed
//! accessors and a whole-pool referential-integrity check.
//!
//! Entries are stored from index 0; wire indices are 1-based and are converted
//! before they reach this table. Cross-referencing entries may dangle while the
//! pool is being built; `validate` decides, for the whole pool at once, whether
//! every reference resolves to an entry of the expected kind.

use vstd::prelude::*;

verus! {

/// One constant-pool entry.
///
/// `Float` and `Double` hold the raw big-endian IEEE-754 bit patterns of the
/// literals, so that the table stays free of floating-point values; a consumer
/// that wants the numeric value reassembles it from the bits.
///
/// Every entry occupies exactly one pool index, the eight-byte literals
/// (`Long`, `Double`) included: this table does not replicate the historical
/// convention of letting them consume two slots, so indices simply count
/// decoded entries in order.
#[derive(Debug)]
pub enum Constant {
    Class(usize),
    Utf8(String),
    NameAndType(usize, usize),
    FieldRef(usize, usize),
    MethodRef(usize, usize),
    Double(u64),
    Integer(i32),
    Float(u32),
    Long(i64),
}

/// The mathematical value of a constant-pool entry.
#[allow(inconsistent_fields)]
pub enum ConstantModel {
    Class { name_index: int },
    Utf8 { text: Seq<char> },
    NameAndType { name_index: int, descriptor_index: int },
    FieldRef { class_index: int, name_and_type_index: int },
    MethodRef { class_index: int, name_and_type_index: int },
    Double { bits: u64 },
    Integer { value: i32 },
    Float { bits: u32 },
    Long { value: i64 },
}

impl View for Constant {
    type V = ConstantModel;

    open spec fn view(&self) -> ConstantModel {
        match self {
            Constant::Class(n) => ConstantModel::Class { name_index: *n as int },
            Constant::Utf8(s) => ConstantModel::Utf8 { text: s@ },
            Constant::NameAndType(n, d) => ConstantModel::NameAndType {
                name_index: *n as int,
                descriptor_index: *d as int,
            },
            Constant::FieldRef(c, nt) => ConstantModel::FieldRef {
                class_index: *c as int,
                name_and_type_index: *nt as int,
            },
            Constant::MethodRef(c, nt) => ConstantModel::MethodRef {
                class_index: *c as int,
                name_and_type_index: *nt as int,
            },
            Constant::Double(bits) => ConstantModel::Double { bits: *bits },
            Constant::Integer(v) => ConstantModel::Integer { value: *v },
            Constant::Float(bits) => ConstantModel::Float { bits: *bits },
            Constant::Long(v) => ConstantModel::Long { value: *v },
        }
    }
}

/// The text at `i`, when `i` is in bounds and the entry there is `Utf8`.
pub open spec fn utf8_at(pool: Seq<ConstantModel>, i: int) -> Option<Seq<char>> {
    if 0 <= i < pool.len() {
        match pool[i] {
            ConstantModel::Utf8 { text } => Some(text),
            _ => None,
        }
    } else {
        None
    }
}

/// Whether `i` is in bounds and the entry there is a `Class`.
pub open spec fn is_class_at(pool: Seq<ConstantModel>, i: int) -> bool {
    0 <= i < pool.len() && pool[i] is Class
}

/// Whether `i` is in bounds and the entry there is a `NameAndType`.
pub open spec fn is_name_and_type_at(pool: Seq<ConstantModel>, i: int) -> bool {
    0 <= i < pool.len() && pool[i] is NameAndType
}

/// The per-kind resolution rule: every index a constant carries must point at
/// an entry of the expected kind, one level deep. Leaf kinds are always valid.
pub open spec fn constant_valid(pool: Seq<ConstantModel>, c: ConstantModel) -> bool {
    match c {
        ConstantModel::Class { name_index } => utf8_at(pool, name_index) is Some,
        ConstantModel::NameAndType { name_index, descriptor_index } => utf8_at(pool, name_index)
            is Some && utf8_at(pool, descriptor_index) is Some,
        ConstantModel::FieldRef { class_index, name_and_type_index } => is_class_at(
            pool,
            class_index,
        ) && is_name_and_type_at(pool, name_and_type_index),
        ConstantModel::MethodRef { class_index, name_and_type_index } => is_class_at(
            pool,
            class_index,
        ) && is_name_and_type_at(pool, name_and_type_index),
        _ => true,
    }
}

/// Whole-pool referential integrity: every entry satisfies its rule.
pub open spec fn pool_valid(pool: Seq<ConstantModel>) -> bool {
    forall|i: int| 0 <= i < pool.len() ==> constant_valid(pool, #[trigger] pool[i])
}

/// The name a `Class` entry at `i` resolves to, in one hop
/// (`Class` at `i`, then the `Utf8` text at its `name_index`).
pub open spec fn class_name_at(pool: Seq<ConstantModel>, i: int) -> Option<Seq<char>> {
    if 0 <= i < pool.len() {
        match pool[i] {
            ConstantModel::Class { name_index } => utf8_at(pool, name_index),
            _ => None,
        }
    } else {
        None
    }
}

/// Resolving a class name is a function of the pool and the index alone: any
/// two results drawn from the same unchanged pool at the same index are equal,
/// so resolving twice yields identical text.
pub proof fn lemma_class_name_resolution_deterministic(
    pool: Seq<ConstantModel>,
    i: int,
    r1: Option<Seq<char>>,
    r2: Option<Seq<char>>,
)
    requires
        r1 == class_name_at(pool, i),
        r2 == class_name_at(pool, i),
    ensures
        r1 == r2,
{
}

/// The insertion-ordered table of constants.
#[derive(Debug)]
pub struct ConstantPool {
    entries: Vec<Constant>,
}

impl View for ConstantPool {
    type V = Seq<ConstantModel>;

    closed spec fn view(&self) -> Seq<ConstantModel> {
        self.entries@.map_values(|c: Constant| c@)
    }
}

impl ConstantPool {
    pub fn new() -> (r: Self)
        ensures
            r@ == Seq::<ConstantModel>::empty(),
    {
        let entries = Vec::new();
        let r = Self { entries };
        proof {
            assert(r@ =~= Seq::<ConstantModel>::empty());
        }
        r
    }

    /// Appends an entry at the next index; no validation happens here, so the
    /// pool may transiently hold dangling references while it is being built.
    pub fn push(&mut self, constant: Constant)
        ensures
            final(self)@ == old(self)@.push(constant@),
    {
        self.entries.push(constant);
        proof {
            assert(self@ =~= old(self)@.push(constant@));
        }
    }

    /// The text at `index` if, and only if, `index` is in bounds and the entry
    /// there is `Utf8`; absence otherwise, never an error.
    pub fn get_utf8_at(&self, index: usize) -> (r: Option<&String>)
        ensures
            match r {
                Some(s) => utf8_at(self@, index as int) == Some(s@),
                None => utf8_at(self@, index as int) is None,
            },
    {
        if index < self.entries.len() {
            match &self.entries[index] {
                Constant::Utf8(s) => Some(s),
                _ => None,
            }
        } else {
            None
        }
    }

    /// Resolves a `Class` entry at `class_index` to its textual name in one
    /// hop. Yields nothing when the chain is broken — when `class_index` does
    /// not hold a `Class`, or its name index does not hold a `Utf8` — rather
    /// than aborting, so it is safe to call on an unvalidated pool.
    pub fn get_class_name(&self, class_index: usize) -> (r: Option<&String>)
        ensures
            match r {
                Some(s) => class_name_at(self@, class_index as int) == Some(s@),
                None => class_name_at(self@, class_index as int) is None,
            },
    {
        match self.get_class_at(class_index) {
            Some(class) => {
                match class {
                    Constant::Class(name_index) => self.get_utf8_at(*name_index),
                    _ => None,
                }
            },
            None => None,
        }
    }

    /// The entry at `index` when it is a `Class`.
    pub fn get_class_at(&self, index: usize) -> (r: Option<&Constant>)
        ensures
            match r {
                Some(c) => is_class_at(self@, index as int) && c@ == self@[index as int],
                None => !is_class_at(self@, index as int),
            },
    {
        if index < self.entries.len() {
            let c = &self.entries[index];
            match c {
                Constant::Class(_) => Some(c),
                _ => None,
            }
        } else {
            None
        }
    }

    /// The entry at `index` when it is a `NameAndType`.
    pub fn get_name_and_type(&self, index: usize) -> (r: Option<&Constant>)
        ensures
            match r {
                Some(c) => is_name_and_type_at(self@, index as int) && c@ == self@[index as int],
                None => !is_name_and_type_at(self@, index as int),
            },
    {
        if index < self.entries.len() {
            let c = &self.entries[index];
            match c {
                Constant::NameAndType(_, _) => Some(c),
                _ => None,
            }
        } else {
            None
        }
    }

    /// The entry at `index` when it is a `FieldRef`.
    pub fn get_field_ref(&self, index: usize) -> (r: Option<&Constant>)
        ensures
            match r {
                Some(c) => 0 <= index < self@.len() && self@[index as int] is FieldRef && c@
                    == self@[index as int],
                None => !(0 <= index < self@.len() && self@[index as int] is FieldRef),
            },
    {
        if index < self.entries.len() {
            let c = &self.entries[index];
            match c {
                Constant::FieldRef(_, _) => Some(c),
                _ => None,
            }
        } else {
            None
        }
    }

    /// The entry at `index` when it is a `MethodRef`.
    pub fn get_method_ref(&self, index: usize) -> (r: Option<&Constant>)
        ensures
            match r {
                Some(c) => 0 <= index < self@.len() && self@[index as int] is MethodRef && c@
                    == self@[index as int],
                None => !(0 <= index < self@.len() && self@[index as int] is MethodRef),
            },
    {
        if index < self.entries.len() {
            let c = &self.entries[index];
            match c {
                Constant::MethodRef(_, _) => Some(c),
                _ => None,
            }
        } else {
            None
        }
    }

    /// The entry at `index` when it is a `Double`.
    pub fn get_double(&self, index: usize) -> (r: Option<&Constant>)
        ensures
            match r {
                Some(c) => 0 <= index < self@.len() && self@[index as int] is Double && c@
                    == self@[index as int],
                None => !(0 <= index < self@.len() && self@[index as int] is Double),
            },
    {
        if index < self.entries.len() {
            let c = &self.entries[index];
            match c {
                Constant::Double(_) => Some(c),
                _ => None,
            }
        } else {
            None
        }
    }

    /// The entry at `index` when it is an `Integer`.
    pub fn get_integer(&self, index: usize) -> (r: Option<&Constant>)
        ensures
            match r {
                Some(c) => 0 <= index < self@.len() && self@[index as int] is Integer && c@
                    == self@[index as int],
                None => !(0 <= index < self@.len() && self@[index as int] is Integer),
            },
    {
        if index < self.entries.len() {
            let c = &self.entries[index];
            match c {
                Constant::Integer(_) => Some(c),
                _ => None,
            }
        } else {
            None
        }
    }

    /// The entry at `index` when it is a `Float`.
    pub fn get_float(&self, index: usize) -> (r: Option<&Constant>)
        ensures
            match r {
                Some(c) => 0 <= index < self@.len() && self@[index as int] is Float && c@
                    == self@[index as int],
                None => !(0 <= index < self@.len() && self@[index as int] is Float),
            },
    {
        if index < self.entries.len() {
            let c = &self.entries[index];
            match c {
                Constant::Float(_) => Some(c),
                _ => None,
            }
        } else {
            None
        }
    }

    /// The entry at `index` when it is a `Long`.
    pub fn get_long(&self, index: usize) -> (r: Option<&Constant>)
        ensures
            match r {
                Some(c) => 0 <= index < self@.len() && self@[index as int] is Long && c@
                    == self@[index as int],
                None => !(0 <= index < self@.len() && self@[index as int] is Long),
            },
    {
        if index < self.entries.len() {
            let c = &self.entries[index];
            match c {
                Constant::Long(_) => Some(c),
                _ => None,
            }
        } else {
            None
        }
    }

    /// Whether one constant satisfies its per-kind resolution rule against
    /// this pool.
    fn validate_constant(&self, constant: &Constant) -> (r: bool)
        ensures
            r == constant_valid(self@, constant@),
    {
        match constant {
            Constant::Class(n) => self.get_utf8_at(*n).is_some(),
            Constant::NameAndType(n, d) => self.get_utf8_at(*n).is_some() && self.get_utf8_at(
                *d,
            ).is_some(),
            Constant::FieldRef(c, nt) => self.get_class_at(*c).is_some()
                && self.get_name_and_type(*nt).is_some(),
            Constant::MethodRef(c, nt) => self.get_class_at(*c).is_some()
                && self.get_name_and_type(*nt).is_some(),
            Constant::Utf8(_) => true,
            Constant::Double(_) => true,
            Constant::Integer(_) => true,
            Constant::Float(_) => true,
            Constant::Long(_) => true,
        }
    }

    /// Scans every entry once, in insertion order, and holds if and only if
    /// every entry satisfies its resolution rule. Forward references are
    /// legal: the rule looks only at which entries exist, not at their order.
    pub fn validate(&self) -> (r: bool)
        ensures
            r == pool_valid(self@),
    {
        let n = self.entries.len();
        let mut i: usize = 0;
        while i < n
            invariant
                n == self.entries@.len(),
                i <= n,
                forall|j: int| 0 <= j < i ==> constant_valid(self@, #[trigger] self@[j]),
            decreases n - i,
        {
            if !self.validate_constant(&self.entries[i]) {
                proof {
                    assert(!constant_valid(self@, self@[i as int]));
                }
                return false;
            }
            i = i + 1;
        }
        true
    }
}

} // verus!
