//! Linear memory: limits, the bytes of a memory instance, loads, stores and growth.
//!
//! A memory instance keeps the bytes that have been written or read so far;
//! every address past them reads as zero.
use vstd::prelude::*;
use vstd::arithmetic::div_mod::lemma_mod_breakdown;
use crate::error::{Trap, WasmError, WasmResult};
use crate::global::{GlobalInstances, global_values};
use crate::indice::Indice;
use crate::instruction::{from_le_bytes_u32, le_bytes_u32, le_bytes_u64};
use crate::sec_data::Data;
use crate::value::Values;

verus! {

/// The size of a page of linear memory in bytes.
pub const PAGE_SIZE: u32 = 65536;

/// The limits of a memory or a table, in pages or elements: a minimum and,
/// maybe, a maximum.
#[derive(Debug, Clone, Copy, PartialEq, Eq, Structural)]
pub enum Limit {
    NoUpperLimit(u32),
    HasUpperLimit(u32, u32),
}

impl Limit {
    /// The minimum of the limit.
    pub open spec fn spec_min(self) -> u32 {
        match self {
            Limit::NoUpperLimit(min) => min,
            Limit::HasUpperLimit(min, _) => min,
        }
    }

    /// The size in bytes of the minimum number of pages.
    pub open spec fn spec_initial_min_size(self) -> nat {
        (PAGE_SIZE * self.spec_min()) as nat
    }

    /// The size in bytes of the minimum number of pages, which must fit in 32 bits.
    pub fn initial_min_size(&self) -> (r: usize)
        requires
            self.spec_min() < 65536,
        ensures
            r == self.spec_initial_min_size(),
    {
        let min_size = match self {
            Limit::NoUpperLimit(min) => *min,
            Limit::HasUpperLimit(min, _) => *min,
        };
        assert(PAGE_SIZE * min_size < 0x1_0000_0000) by (nonlinear_arith)
            requires
                min_size < 65536,
        ;
        (PAGE_SIZE * min_size) as usize
    }
}

/// The byte at address `i` of a memory whose bytes so far are `data`: past them, zero.
pub open spec fn mem_byte(data: Seq<u8>, i: int) -> u8 {
    if 0 <= i < data.len() {
        data[i]
    } else {
        0
    }
}

/// The bytes at addresses `from` up to `to`.
pub open spec fn mem_range(data: Seq<u8>, from: nat, to: nat) -> Seq<u8> {
    Seq::new((to - from) as nat, |k: int| mem_byte(data, from + k))
}

/// `256` to the power `n`.
pub open spec fn pow256(n: nat) -> nat
    decreases n,
{
    if n == 0 {
        1
    } else {
        256 * pow256((n - 1) as nat)
    }
}

/// The number whose bytes, least significant first, are `bytes`.
pub open spec fn le_value(bytes: Seq<u8>) -> nat
    decreases bytes.len(),
{
    if bytes.len() == 0 {
        0
    } else {
        le_value(bytes.drop_last()) + (bytes.last() as nat) * pow256((bytes.len() - 1) as nat)
    }
}

/// The bytes of `data` with `bytes` written at `offset`, grown with zeros where
/// they reach past it.
pub open spec fn spec_allocate(data: Seq<u8>, bytes: Seq<u8>, offset: nat) -> Seq<u8> {
    let end = offset + bytes.len();
    let len = if end > data.len() { end } else { data.len() };
    Seq::new(len, |i: int| if offset <= i < end { bytes[i - offset] } else { mem_byte(data, i) })
}

/// The bytes that a value takes in memory, least significant first.
pub open spec fn value_bytes(v: Values) -> Seq<u8> {
    match v {
        Values::I32(x) => le_bytes_u32(x as u32),
        Values::I64(x) => le_bytes_u64(x as u64),
        Values::F32(bits) => le_bytes_u32(bits),
        Values::F64(bits) => le_bytes_u64(bits),
    }
}

/// What the offset expression of a data segment evaluates to: the constant of
/// an `i32.const`, or the value of the 32-bit integer global that a
/// `global.get` names, each read as an unsigned number.
pub open spec fn spec_constant_offset(expr: Seq<u8>, globals: Seq<Values>) -> Result<nat, Trap> {
    if expr.len() < 5 {
        Err(Trap::Unknown)
    } else if expr[0] == 0x41u8 {
        Ok(from_le_bytes_u32(expr.subrange(1, 5)) as nat)
    } else if expr[0] == 0x23u8 {
        let idx = from_le_bytes_u32(expr.subrange(1, 5));
        if idx < globals.len() {
            match globals[idx as int] {
                Values::I32(v) => Ok((v as u32) as nat),
                _ => Err(Trap::TypeMismatch),
            }
        } else {
            Err(Trap::Notfound)
        }
    } else {
        Err(Trap::Unknown)
    }
}

/// Fills a memory of `initial_size` bytes with the first `n` data segments:
/// each must fit within the size.
pub open spec fn spec_init_data(
    datas: Seq<(u32, Seq<u8>, Seq<u8>)>,
    n: nat,
    globals: Seq<Values>,
    initial_size: nat,
) -> Result<Seq<u8>, Trap>
    decreases n,
{
    if n == 0 {
        Ok(seq![])
    } else {
        match spec_init_data(datas, (n - 1) as nat, globals, initial_size) {
            Err(e) => Err(e),
            Ok(data) => {
                let d = datas[n - 1];
                match spec_constant_offset(d.1, globals) {
                    Err(e) => Err(e),
                    Ok(offset) => if offset + d.2.len() > initial_size {
                        Err(Trap::DataSegmentDoesNotFit)
                    } else {
                        Ok(spec_allocate(data, d.2, offset))
                    },
                }
            },
        }
    }
}

/// Once filling with the first `k + 1` segments fails, filling with more fails the same way.
proof fn lemma_init_data_error(
    datas: Seq<(u32, Seq<u8>, Seq<u8>)>,
    k: nat,
    j: nat,
    globals: Seq<Values>,
    initial_size: nat,
)
    requires
        j > 0,
        spec_init_data(datas, k + 1, globals, initial_size) is Err,
    ensures
        spec_init_data(datas, k + j, globals, initial_size) == spec_init_data(datas, k + 1, globals, initial_size),
    decreases j,
{
    if j > 1 {
        lemma_init_data_error(datas, k, (j - 1) as nat, globals, initial_size);
        assert(spec_init_data(datas, k + j, globals, initial_size) == spec_init_data(datas, (k + j - 1) as nat, globals, initial_size));
    }
}

/// Evaluates the offset expression of a data segment.
pub fn constant_offset(expr: &Vec<u8>, globals: &GlobalInstances) -> (r: Result<usize, Trap>)
    ensures
        match spec_constant_offset(expr@, global_values(globals.0@)) {
            Ok(n) => r == Ok::<usize, Trap>(n as usize) && n == r->Ok_0,
            Err(e) => r == Err::<usize, Trap>(e),
        },
{
    if expr.len() < 5 {
        return Err(Trap::Unknown);
    }
    let raw = (expr[1] as u32) | ((expr[2] as u32) << 8) | ((expr[3] as u32) << 16) | ((expr[4] as u32) << 24);
    proof {
        assert(expr@.subrange(1, 5) =~= seq![expr@[1], expr@[2], expr@[3], expr@[4]]);
    }
    if expr[0] == 0x41 {
        Ok(raw as usize)
    } else if expr[0] == 0x23 {
        match globals.get_global(&Indice(raw)) {
            Ok(Values::I32(v)) => Ok((v as u32) as usize),
            Ok(_) => Err(Trap::TypeMismatch),
            Err(e) => Err(e),
        }
    } else {
        Err(Trap::Unknown)
    }
}

/// A linear memory: its bytes so far, its limits, the name it is exported
/// under, and its current size in bytes.
#[derive(Debug)]
pub struct MemoryInstance {
    data: Vec<u8>,
    limit: Limit,
    export_name: Option<String>,
    surface_size: u32,
}

impl Clone for MemoryInstance {
    fn clone(&self) -> (r: MemoryInstance)
        ensures
            r.spec_data() == self.spec_data(),
            r.spec_limit() == self.spec_limit(),
            r.spec_export_name() == self.spec_export_name(),
            r.spec_surface_size() == self.spec_surface_size(),
    {
        let data = self.data.clone();
        proof {
            assert(data@ =~= self.data@);
        }
        let export_name = match &self.export_name {
            Some(n) => Some(n.clone()),
            None => None,
        };
        proof {
            use_type_invariant(self);
        }
        MemoryInstance { data, limit: self.limit, export_name, surface_size: self.surface_size }
    }
}

impl MemoryInstance {
    /// The size is a whole number of pages.
    #[verifier::type_invariant]
    closed spec fn whole_pages(self) -> bool {
        self.surface_size % PAGE_SIZE == 0
    }

    /// The bytes so far.
    pub closed spec fn spec_data(&self) -> Seq<u8> {
        self.data@
    }

    /// The limits.
    pub closed spec fn spec_limit(&self) -> Limit {
        self.limit
    }

    /// The name the memory is exported under.
    pub closed spec fn spec_export_name(&self) -> Option<Seq<char>> {
        match self.export_name {
            Some(n) => Some(n@),
            None => None,
        }
    }

    /// The current size in bytes.
    pub closed spec fn spec_surface_size(&self) -> u32 {
        self.surface_size
    }

    /// Writes `allocatable` into `data` at `offset`, growing `data` with zeros first
    /// where the bytes reach past it.
    fn allocate(data: &mut Vec<u8>, allocatable: &[u8], offset: usize)
        requires
            offset + allocatable@.len() <= usize::MAX,
        ensures
            final(data)@ == spec_allocate(old(data)@, allocatable@, offset as nat),
    {
        let end = offset + allocatable.len();
        if end > data.len() {
            let mut k = data.len();
            while k < end
                invariant
                    data@.len() == k,
                    k <= end,
                    forall|i: int| 0 <= i < old(data)@.len() ==> data@[i] == old(data)@[i],
                    forall|i: int| old(data)@.len() <= i < k ==> data@[i] == 0,
                    old(data)@.len() <= k,
                decreases end - k,
            {
                data.push(0);
                k = k + 1;
            }
        }
        let ghost grown = data@;
        let mut i: usize = 0;
        while i < allocatable.len()
            invariant
                offset + allocatable@.len() == end,
                end <= data@.len(),
                data@.len() == grown.len(),
                i <= allocatable@.len(),
                forall|j: int| 0 <= j < data@.len() ==> #[trigger] data@[j] == if offset <= j < offset + i {
                    allocatable@[j - offset]
                } else {
                    grown[j]
                },
            decreases allocatable@.len() - i,
        {
            data.set(offset + i, allocatable[i]);
            i = i + 1;
        }
        proof {
            assert(data@ =~= spec_allocate(old(data)@, allocatable@, offset as nat));
        }
    }

    /// A memory of the minimum size of `limit`, filled with the data segments in
    /// order; a segment that reaches past the minimum size does not fit.
    pub fn new(datas: Vec<Data>, limit: Limit, export_name: Option<String>, global_instances: &GlobalInstances) -> (r: WasmResult<MemoryInstance>)
        requires
            limit.spec_min() < 65536,
        ensures
            match spec_init_data(crate::decodable::views(datas@), datas@.len(), global_values(global_instances.0@), limit.spec_initial_min_size()) {
                Ok(data) => r matches Ok(m) && m.spec_data() == data && m.spec_limit() == limit
                    && m.spec_export_name() == crate::module::opt_string_view(export_name)
                    && m.spec_surface_size() == limit.spec_initial_min_size(),
                Err(e) => r == Err::<MemoryInstance, WasmError>(WasmError::Trap(e)),
            },
    {
        let initial_size = limit.initial_min_size();
        let mut data: Vec<u8> = Vec::new();
        let mut k: usize = 0;
        while k < datas.len()
            invariant
                k <= datas@.len(),
                initial_size == limit.spec_initial_min_size(),
                initial_size < 0x1_0000_0000,
                spec_init_data(crate::decodable::views(datas@), k as nat, global_values(global_instances.0@), initial_size as nat) == Ok::<Seq<u8>, Trap>(data@),
            decreases datas@.len() - k,
        {
            let d = &datas[k];
            proof {
                assert(crate::decodable::views(datas@)[k as int] == d@);
            }
            let offset = match constant_offset(&d.offset, global_instances) {
                Ok(o) => o,
                Err(e) => {
                    proof {
                        lemma_init_data_error(crate::decodable::views(datas@), k as nat, (datas@.len() - k) as nat, global_values(global_instances.0@), initial_size as nat);
                    }
                    return Err(WasmError::Trap(e));
                },
            };
            if d.init.len() > initial_size || offset > initial_size - d.init.len() {
                proof {
                    lemma_init_data_error(crate::decodable::views(datas@), k as nat, (datas@.len() - k) as nat, global_values(global_instances.0@), initial_size as nat);
                }
                return Err(WasmError::Trap(Trap::DataSegmentDoesNotFit));
            }
            MemoryInstance::allocate(&mut data, d.init.as_slice(), offset);
            k = k + 1;
        }
        proof {
            let mn = limit.spec_min() as int;
            assert((65536 * mn) % 65536 == 0) by (nonlinear_arith);
        }
        let r = MemoryInstance { data, limit, export_name, surface_size: initial_size as u32 };
        Ok(r)
    }

    /// Whether `ptr` lies past the current size.
    pub fn data_size_smaller_than(&self, ptr: u32) -> (r: bool)
        ensures
            r == (ptr > self.spec_surface_size()),
    {
        ptr > self.surface_size
    }

    /// The current size in pages.
    pub fn size_by_pages(&self) -> (r: u32)
        ensures
            r == self.spec_surface_size() / PAGE_SIZE,
            self.spec_surface_size() == r * PAGE_SIZE,
    {
        proof {
            use_type_invariant(self);
        }
        self.surface_size / PAGE_SIZE
    }

    /// Grows the memory by `increase_page` pages. It fails when that would pass
    /// the maximum of the limits, or a size of 32 bits.
    pub fn memory_grow(&mut self, increase_page: u32) -> (r: WasmResult<()>)
        requires
            old(self).spec_limit() is HasUpperLimit ==> old(self).spec_surface_size() / PAGE_SIZE + increase_page <= u32::MAX,
        ensures
            final(self).spec_data() == old(self).spec_data(),
            final(self).spec_limit() == old(self).spec_limit(),
            final(self).spec_export_name() == old(self).spec_export_name(),
            ({
                let within_max = match old(self).spec_limit() {
                    Limit::HasUpperLimit(_, max) => old(self).spec_surface_size() / PAGE_SIZE + increase_page <= max,
                    Limit::NoUpperLimit(_) => true,
                };
                let next = old(self).spec_surface_size() + increase_page * PAGE_SIZE;
                if within_max && next <= u32::MAX {
                    r is Ok && final(self).spec_surface_size() == next
                } else {
                    r == Err::<(), WasmError>(WasmError::Trap(Trap::FailToGrow))
                        && final(self).spec_surface_size() == old(self).spec_surface_size()
                }
            }),
    {
        match self.limit {
            Limit::HasUpperLimit(_, max) => {
                if self.size_by_pages() + increase_page > max {
                    return Err(WasmError::Trap(Trap::FailToGrow));
                }
            },
            Limit::NoUpperLimit(_) => {},
        }
        proof {
            use_type_invariant(&*self);
        }
        let current_size = self.surface_size;
        match increase_page.checked_mul(PAGE_SIZE) {
            Some(growing_size) => match current_size.checked_add(growing_size) {
                Some(next_size) => {
                    proof {
                        let c = current_size as int;
                        let n = increase_page as int;
                        assert((c + n * 65536) % 65536 == 0) by (nonlinear_arith)
                            requires
                                c % 65536 == 0,
                        ;
                    }
                    self.surface_size = next_size;
                    Ok(())
                },
                None => Err(WasmError::Trap(Trap::FailToGrow)),
            },
            None => Err(WasmError::Trap(Trap::FailToGrow)),
        }
    }

    /// Reads the bytes at `from` up to `to`, at most four, as a little-endian number.
    pub fn load_data_32(&mut self, from: u32, to: u32) -> (r: u32)
        requires
            from <= to,
            to - from <= 4,
        ensures
            r == le_value(mem_range(old(self).spec_data(), from as nat, to as nat)),
            final(self).spec_data() == old(self).spec_data(),
            final(self).spec_limit() == old(self).spec_limit(),
            final(self).spec_export_name() == old(self).spec_export_name(),
            final(self).spec_surface_size() == old(self).spec_surface_size(),
    {
        let ghost data0 = old(self).data@;
        let mut bit_buf: u32 = 0;
        let mut idx: u32 = 0;
        while idx < to - from
            invariant
                from <= to,
                to - from <= 4,
                idx <= to - from,
                self.data@ == data0,
                bit_buf == le_value(mem_range(data0, from as nat, (from + idx) as nat)),
                bit_buf < pow256(idx as nat),
            decreases to - from - idx,
        {
            let at = (from + idx) as usize;
            let d = if at < self.data.len() { self.data[at] } else { 0 };
            proof {
                lemma_le_value_step(data0, from as nat, idx as nat);
                lemma_xor_byte_u32(bit_buf, d, idx);
            }
            bit_buf = bit_buf ^ ((d as u32) << (idx * 8));
            idx = idx + 1;
        }
        bit_buf
    }

    /// Reads the bytes at `from` up to `to`, at most eight, as a little-endian number.
    pub fn load_data_64(&mut self, from: u32, to: u32) -> (r: u64)
        requires
            from <= to,
            to - from <= 8,
        ensures
            r == le_value(mem_range(old(self).spec_data(), from as nat, to as nat)),
            final(self).spec_data() == old(self).spec_data(),
            final(self).spec_limit() == old(self).spec_limit(),
            final(self).spec_export_name() == old(self).spec_export_name(),
            final(self).spec_surface_size() == old(self).spec_surface_size(),
    {
        let ghost data0 = old(self).data@;
        let mut bit_buf: u64 = 0;
        let mut idx: u32 = 0;
        while idx < to - from
            invariant
                from <= to,
                to - from <= 8,
                idx <= to - from,
                self.data@ == data0,
                bit_buf == le_value(mem_range(data0, from as nat, (from + idx) as nat)),
                bit_buf < pow256(idx as nat),
            decreases to - from - idx,
        {
            let at = (from + idx) as usize;
            let d = if at < self.data.len() { self.data[at] } else { 0 };
            proof {
                lemma_le_value_step(data0, from as nat, idx as nat);
                lemma_xor_byte_u64(bit_buf, d, idx as u64);
            }
            bit_buf = bit_buf ^ ((d as u64) << ((idx * 8) as u64));
            idx = idx + 1;
        }
        bit_buf
    }

    /// Writes the first `to - from` bytes of `value`, least significant first, at `from`.
    pub fn store_data(&mut self, from: u32, to: u32, value: &Values)
        requires
            from <= to,
            to - from <= value_bytes(*value).len(),
        ensures
            final(self).spec_data() == spec_allocate(
                old(self).spec_data(),
                value_bytes(*value).subrange(0, to - from),
                from as nat,
            ),
            final(self).spec_limit() == old(self).spec_limit(),
            final(self).spec_export_name() == old(self).spec_export_name(),
            final(self).spec_surface_size() == old(self).spec_surface_size(),
    {
        let (low, high, width): (u32, u32, u32) = match value {
            Values::I32(v) => (*v as u32, 0, 4),
            Values::F32(bits) => (*bits, 0, 4),
            Values::I64(v) => ((*v as u64) as u32, ((*v as u64) >> 32) as u32, 8),
            Values::F64(bits) => (*bits as u32, (*bits >> 32) as u32, 8),
        };
        let mut all: Vec<u8> = Vec::new();
        all.push(low as u8);
        all.push((low >> 8) as u8);
        all.push((low >> 16) as u8);
        all.push((low >> 24) as u8);
        if width == 8 {
            all.push(high as u8);
            all.push((high >> 8) as u8);
            all.push((high >> 16) as u8);
            all.push((high >> 24) as u8);
        }
        proof {
            lemma_value_bytes_split(*value, low, high, width);
        }
        let n = (to - from) as usize;
        let mut bytes: Vec<u8> = Vec::new();
        let mut i: usize = 0;
        while i < n
            invariant
                n <= all@.len(),
                i <= n,
                bytes@ == all@.subrange(0, i as int),
            decreases n - i,
        {
            bytes.push(all[i]);
            proof {
                assert(all@.subrange(0, i + 1) == all@.subrange(0, i as int).push(all@[i as int]));
            }
            i = i + 1;
        }
        proof {
            use_type_invariant(&*self);
        }
        let mut data: Vec<u8> = Vec::new();
        std::mem::swap(&mut data, &mut self.data);
        MemoryInstance::allocate(&mut data, bytes.as_slice(), from as usize);
        std::mem::swap(&mut data, &mut self.data);
    }

    /// Whether the range of sizes of the limits of the memory lies within
    /// that of `other_limit`.
    pub fn limit_within(&self, other_limit: &Limit) -> (r: bool)
        ensures
            r == crate::limit_order::limit_within(self.spec_limit(), *other_limit),
    {
        crate::limit_order::limit_le(&self.limit, other_limit)
    }

    /// Whether the range of sizes of the limits of the memory strictly
    /// contains that of `other_limit`.
    pub fn limit_gt(&self, other_limit: &Limit) -> (r: bool)
        ensures
            r == crate::limit_order::limit_greater(self.spec_limit(), *other_limit),
    {
        crate::limit_order::limit_gt(&self.limit, other_limit)
    }
}

/// The memories of a module; only the first is used.
#[derive(Debug)]
pub struct MemoryInstances(Vec<MemoryInstance>);

impl MemoryInstances {
    /// The memories.
    pub closed spec fn spec_instances(&self) -> Seq<MemoryInstance> {
        self.0@
    }

    pub fn new(memory_instances: Vec<MemoryInstance>) -> (r: MemoryInstances)
        ensures
            r.spec_instances() == memory_instances@,
    {
        MemoryInstances(memory_instances)
    }

    /// No memory.
    pub fn empty() -> (r: MemoryInstances)
        ensures
            r.spec_instances().len() == 0,
    {
        MemoryInstances(Vec::new())
    }

    /// The number of memories.
    pub fn len(&self) -> (r: usize)
        ensures
            r == self.spec_instances().len(),
    {
        self.0.len()
    }

    /// The first memory.
    pub fn first_instance(&self) -> (r: &MemoryInstance)
        requires
            self.spec_instances().len() > 0,
        ensures
            *r == self.spec_instances()[0],
    {
        &self.0[0]
    }

    /// The limits of the first memory.
    pub fn first_limit(&self) -> (r: Limit)
        requires
            self.spec_instances().len() > 0,
        ensures
            r == self.spec_instances()[0].spec_limit(),
    {
        self.0[0].limit
    }

    /// Whether `ptr` lies past the size of the first memory.
    pub fn data_size_small_than(&self, ptr: u32) -> (r: bool)
        requires
            self.spec_instances().len() > 0,
        ensures
            r == (ptr > self.spec_instances()[0].spec_surface_size()),
    {
        self.0[0].data_size_smaller_than(ptr)
    }

    /// The size in pages of the first memory.
    pub fn size_by_pages(&self) -> (r: u32)
        requires
            self.spec_instances().len() > 0,
        ensures
            r == self.spec_instances()[0].spec_surface_size() / PAGE_SIZE,
            self.spec_instances()[0].spec_surface_size() == r * PAGE_SIZE,
    {
        self.0[0].size_by_pages()
    }

    /// Reads at most four bytes of the first memory, little-endian.
    pub fn load_data_32(&mut self, from: u32, to: u32) -> (r: u32)
        requires
            old(self).spec_instances().len() > 0,
            from <= to,
            to - from <= 4,
        ensures
            r == le_value(mem_range(old(self).spec_instances()[0].spec_data(), from as nat, to as nat)),
            final(self).spec_instances().len() == old(self).spec_instances().len(),
            final(self).spec_instances()[0].spec_data() == old(self).spec_instances()[0].spec_data(),
            final(self).spec_instances()[0].spec_surface_size() == old(self).spec_instances()[0].spec_surface_size(),
            final(self).spec_instances()[0].spec_limit() == old(self).spec_instances()[0].spec_limit(),
            forall|i: int| 0 < i < old(self).spec_instances().len() ==> #[trigger] final(self).spec_instances()[i] == old(self).spec_instances()[i],
    {
        let mut m = self.0.remove(0);
        let r = m.load_data_32(from, to);
        self.0.insert(0, m);
        r
    }

    /// Reads at most eight bytes of the first memory, little-endian.
    pub fn load_data_64(&mut self, from: u32, to: u32) -> (r: u64)
        requires
            old(self).spec_instances().len() > 0,
            from <= to,
            to - from <= 8,
        ensures
            r == le_value(mem_range(old(self).spec_instances()[0].spec_data(), from as nat, to as nat)),
            final(self).spec_instances().len() == old(self).spec_instances().len(),
            final(self).spec_instances()[0].spec_data() == old(self).spec_instances()[0].spec_data(),
            final(self).spec_instances()[0].spec_surface_size() == old(self).spec_instances()[0].spec_surface_size(),
            final(self).spec_instances()[0].spec_limit() == old(self).spec_instances()[0].spec_limit(),
            forall|i: int| 0 < i < old(self).spec_instances().len() ==> #[trigger] final(self).spec_instances()[i] == old(self).spec_instances()[i],
    {
        let mut m = self.0.remove(0);
        let r = m.load_data_64(from, to);
        self.0.insert(0, m);
        r
    }

    /// Writes the first `to - from` bytes of `value` into the first memory at `from`.
    pub fn store_data(&mut self, from: u32, to: u32, value: &Values)
        requires
            old(self).spec_instances().len() > 0,
            from <= to,
            to - from <= value_bytes(*value).len(),
        ensures
            final(self).spec_instances().len() == old(self).spec_instances().len(),
            final(self).spec_instances()[0].spec_data() == spec_allocate(
                old(self).spec_instances()[0].spec_data(),
                value_bytes(*value).subrange(0, to - from),
                from as nat,
            ),
            final(self).spec_instances()[0].spec_surface_size() == old(self).spec_instances()[0].spec_surface_size(),
            final(self).spec_instances()[0].spec_limit() == old(self).spec_instances()[0].spec_limit(),
            forall|i: int| 0 < i < old(self).spec_instances().len() ==> #[trigger] final(self).spec_instances()[i] == old(self).spec_instances()[i],
    {
        let mut m = self.0.remove(0);
        m.store_data(from, to, value);
        self.0.insert(0, m);
    }

    /// Grows the first memory by `increase_page` pages.
    pub fn memory_grow(&mut self, increase_page: u32) -> (r: WasmResult<()>)
        requires
            old(self).spec_instances().len() > 0,
            old(self).spec_instances()[0].spec_limit() is HasUpperLimit ==> old(self).spec_instances()[0].spec_surface_size() / PAGE_SIZE + increase_page <= u32::MAX,
        ensures
            final(self).spec_instances().len() == old(self).spec_instances().len(),
            final(self).spec_instances()[0].spec_data() == old(self).spec_instances()[0].spec_data(),
            final(self).spec_instances()[0].spec_limit() == old(self).spec_instances()[0].spec_limit(),
            ({
                let old_size = old(self).spec_instances()[0].spec_surface_size();
                let within_max = match old(self).spec_instances()[0].spec_limit() {
                    Limit::HasUpperLimit(_, max) => old_size / PAGE_SIZE + increase_page <= max,
                    Limit::NoUpperLimit(_) => true,
                };
                let next = old_size + increase_page * PAGE_SIZE;
                if within_max && next <= u32::MAX {
                    r is Ok && final(self).spec_instances()[0].spec_surface_size() == next
                } else {
                    r == Err::<(), WasmError>(WasmError::Trap(Trap::FailToGrow))
                        && final(self).spec_instances()[0].spec_surface_size() == old_size
                }
            }),
            forall|i: int| 0 < i < old(self).spec_instances().len() ==> #[trigger] final(self).spec_instances()[i] == old(self).spec_instances()[i],
    {
        let mut m = self.0.remove(0);
        let r = m.memory_grow(increase_page);
        self.0.insert(0, m);
        r
    }

    /// A copy of the first memory, when it is exported under `name`.
    pub fn clone_instance_by_name(&self, name: &str) -> (r: Option<MemoryInstance>)
        ensures
            r is Some <==> self.spec_instances().len() > 0 && self.spec_instances()[0].spec_export_name() == Some(name@),
            r matches Some(m) ==> m.spec_data() == self.spec_instances()[0].spec_data()
                && m.spec_limit() == self.spec_instances()[0].spec_limit()
                && m.spec_export_name() == self.spec_instances()[0].spec_export_name()
                && m.spec_surface_size() == self.spec_instances()[0].spec_surface_size(),
    {
        if self.0.len() == 0 {
            return None;
        }
        let instance = self.0[0].clone();
        let key = name.to_owned();
        let same = match &instance.export_name {
            Some(n) => *n == key,
            None => false,
        };
        if same {
            Some(instance)
        } else {
            None
        }
    }
}

/// Writes the first `n` data segments, in order, into a memory whose bytes
/// so far are `base`: each must fit within `size` bytes.
pub open spec fn spec_fill_data(
    base: Seq<u8>,
    datas: Seq<(u32, Seq<u8>, Seq<u8>)>,
    n: nat,
    globals: Seq<Values>,
    size: nat,
) -> Result<Seq<u8>, Trap>
    decreases n,
{
    if n == 0 {
        Ok(base)
    } else {
        match spec_fill_data(base, datas, (n - 1) as nat, globals, size) {
            Err(e) => Err(e),
            Ok(data) => {
                let d = datas[n - 1];
                match spec_constant_offset(d.1, globals) {
                    Err(e) => Err(e),
                    Ok(offset) => if offset + d.2.len() > size {
                        Err(Trap::DataSegmentDoesNotFit)
                    } else {
                        Ok(spec_allocate(data, d.2, offset))
                    },
                }
            },
        }
    }
}

/// Once writing the first `k + 1` segments fails, writing more fails the same way.
proof fn lemma_fill_data_error(
    base: Seq<u8>,
    datas: Seq<(u32, Seq<u8>, Seq<u8>)>,
    k: nat,
    j: nat,
    globals: Seq<Values>,
    size: nat,
)
    requires
        j > 0,
        spec_fill_data(base, datas, k + 1, globals, size) is Err,
    ensures
        spec_fill_data(base, datas, k + j, globals, size) == spec_fill_data(base, datas, k + 1, globals, size),
    decreases j,
{
    if j > 1 {
        lemma_fill_data_error(base, datas, k, (j - 1) as nat, globals, size);
        assert(spec_fill_data(base, datas, k + j, globals, size) == spec_fill_data(base, datas, (k + j - 1) as nat, globals, size));
    }
}

/// The size in bytes that the data segments of an importer must fit in: that
/// of its own limits if it has them, else that of the imported memory.
pub open spec fn link_bound(own: Option<Limit>, imported: Limit) -> Limit {
    match own {
        Some(l) => l,
        None => imported,
    }
}

/// Writes the data segments in order into `data`, each of which must fit
/// within `size` bytes.
fn fill_data(data: &mut Vec<u8>, datas: &Vec<Data>, globals: &GlobalInstances, size: usize) -> (r: Result<(), Trap>)
    requires
        size < 0x1_0000_0000,
    ensures
        match spec_fill_data(old(data)@, crate::decodable::views(datas@), datas@.len(), global_values(globals.0@), size as nat) {
            Ok(d) => r is Ok && final(data)@ == d,
            Err(e) => r == Err::<(), Trap>(e),
        },
{
    let ghost base = data@;
    let ghost ds = crate::decodable::views(datas@);
    let ghost gv = global_values(globals.0@);
    let mut k: usize = 0;
    while k < datas.len()
        invariant
            k <= datas@.len(),
            size < 0x1_0000_0000,
            base == old(data)@,
            ds == crate::decodable::views(datas@),
            gv == global_values(globals.0@),
            spec_fill_data(base, ds, k as nat, gv, size as nat) == Ok::<Seq<u8>, Trap>(data@),
        decreases datas@.len() - k,
    {
        let d = &datas[k];
        proof {
            assert(ds[k as int] == d@);
        }
        let offset = match constant_offset(&d.offset, globals) {
            Ok(o) => o,
            Err(e) => {
                proof {
                    lemma_fill_data_error(base, ds, k as nat, (datas@.len() - k) as nat, gv, size as nat);
                }
                return Err(e);
            },
        };
        if d.init.len() > size || offset > size - d.init.len() {
            proof {
                lemma_fill_data_error(base, ds, k as nat, (datas@.len() - k) as nat, gv, size as nat);
            }
            return Err(Trap::DataSegmentDoesNotFit);
        }
        MemoryInstance::allocate(data, d.init.as_slice(), offset);
        k = k + 1;
    }
    Ok(())
}

impl MemoryInstances {
    /// Checks that the first memory can be imported by `import`, with the
    /// importer's own limits `limit`, if it has any, and its data segments:
    /// there must be a first memory, exported under the import's name
    /// (else the import is unknown); the range of sizes of its limits must
    /// lie within the one the import asks for (else the import is
    /// incompatible); the
    /// minimum size must be below 65536 pages; the data segments must fit.
    pub fn validate(
        that: &MemoryInstances,
        limit: Option<Limit>,
        import: &crate::module::ExternalInterface,
        datas: &Vec<Data>,
        global_instances: &GlobalInstances,
    ) -> (r: WasmResult<()>)
        requires
            import@.2 is ImportDescriptor,
            import@.2->ImportDescriptor_0 is Memory,
        ensures
            r == spec_validate_memory(that.spec_instances(), limit, import@, crate::decodable::views(datas@), global_values(global_instances.0@)),
    {
        if that.0.len() == 0 {
            return Err(WasmError::Trap(Trap::UnknownImport));
        }
        let instance = &that.0[0];
        let same = match &instance.export_name {
            Some(n) => *n == import.name,
            None => false,
        };
        if !same {
            return Err(WasmError::Trap(Trap::UnknownImport));
        }
        let asked = match import.descriptor {
            crate::module::ModuleDescriptor::ImportDescriptor(crate::module::ImportDescriptor::Memory(l)) => l,
            _ => return Err(WasmError::Trap(Trap::UnexpectedEnd)),
        };
        if !instance.limit_within(&asked) {
            return Err(WasmError::Trap(Trap::IncompatibleImportType));
        }
        let bound = match limit {
            Some(l) => l,
            None => instance.limit,
        };
        let min = match bound {
            Limit::NoUpperLimit(m) => m,
            Limit::HasUpperLimit(m, _) => m,
        };
        if min >= 65536 {
            return Err(WasmError::Trap(Trap::Unknown));
        }
        let size = bound.initial_min_size();
        let mut scratch = instance.data.clone();
        proof {
            assert(scratch@ =~= instance.data@);
        }
        match fill_data(&mut scratch, datas, global_instances, size) {
            Ok(()) => Ok(()),
            Err(e) => Err(WasmError::Trap(e)),
        }
    }

    /// The memory an importer gets of the first memory: a copy of it, with
    /// the importer's own limits if it has any, and with its data segments
    /// written, each of which must fit. There must be a first memory whose
    /// minimum size, or that of `limit`, is below 65536 pages.
    pub fn from(
        that: &MemoryInstances,
        limit: Option<Limit>,
        datas: &Vec<Data>,
        global_instances: &GlobalInstances,
    ) -> (r: WasmResult<MemoryInstances>)
        requires
            that.spec_instances().len() > 0,
            link_bound(limit, that.spec_instances()[0].spec_limit()).spec_min() < 65536,
        ensures
            ({
                let first = that.spec_instances()[0];
                let bound = link_bound(limit, first.spec_limit());
                match spec_fill_data(first.spec_data(), crate::decodable::views(datas@), datas@.len(), global_values(global_instances.0@), bound.spec_initial_min_size()) {
                    Ok(d) => r matches Ok(ms) && ms.spec_instances().len() == 1
                        && ms.spec_instances()[0].spec_data() == d
                        && ms.spec_instances()[0].spec_limit() == bound
                        && ms.spec_instances()[0].spec_export_name() == first.spec_export_name()
                        && ms.spec_instances()[0].spec_surface_size() == first.spec_surface_size(),
                    Err(e) => r == Err::<MemoryInstances, WasmError>(WasmError::Trap(e)),
                }
            }),
    {
        let mut instance = that.0[0].clone();
        proof {
            use_type_invariant(&instance);
        }
        let bound = match limit {
            Some(l) => l,
            None => instance.limit,
        };
        instance.limit = bound;
        let size = bound.initial_min_size();
        let mut data: Vec<u8> = Vec::new();
        std::mem::swap(&mut data, &mut instance.data);
        match fill_data(&mut data, datas, global_instances, size) {
            Ok(()) => {},
            Err(e) => return Err(WasmError::Trap(e)),
        }
        std::mem::swap(&mut data, &mut instance.data);
        let mut v: Vec<MemoryInstance> = Vec::new();
        v.push(instance);
        Ok(MemoryInstances(v))
    }
}

/// What checking a memory import gives: see `MemoryInstances::validate`.
pub open spec fn spec_validate_memory(
    memories: Seq<MemoryInstance>,
    limit: Option<Limit>,
    import: (Option<Seq<char>>, Seq<char>, crate::module::ModuleDescriptor),
    datas: Seq<(u32, Seq<u8>, Seq<u8>)>,
    globals: Seq<Values>,
) -> WasmResult<()> {
    if memories.len() == 0 || memories[0].spec_export_name() != Some(import.1) {
        Err(WasmError::Trap(Trap::UnknownImport))
    } else if !crate::limit_order::limit_within(memories[0].spec_limit(), import.2->ImportDescriptor_0->Memory_0) {
        Err(WasmError::Trap(Trap::IncompatibleImportType))
    } else {
        let bound = link_bound(limit, memories[0].spec_limit());
        if bound.spec_min() >= 65536 {
            Err(WasmError::Trap(Trap::Unknown))
        } else {
            match spec_fill_data(memories[0].spec_data(), datas, datas.len(), globals, bound.spec_initial_min_size()) {
                Ok(_) => Ok(()),
                Err(e) => Err(WasmError::Trap(e)),
            }
        }
    }
}

/// Reading one more byte adds it at the next power of 256.
proof fn lemma_le_value_step(data: Seq<u8>, from: nat, k: nat)
    ensures
        le_value(mem_range(data, from, from + k + 1)) == le_value(mem_range(data, from, from + k)) + (mem_byte(data, (from + k) as int) as nat) * pow256(k),
{
    assert(mem_range(data, from, from + k + 1).drop_last() =~= mem_range(data, from, from + k));
}

/// The powers of 256 up to the eighth.
proof fn lemma_pow256_values()
    ensures
        pow256(0) == 1,
        pow256(1) == 0x100,
        pow256(2) == 0x1_0000,
        pow256(3) == 0x100_0000,
        pow256(4) == 0x1_0000_0000,
        pow256(5) == 0x100_0000_0000,
        pow256(6) == 0x1_0000_0000_0000,
        pow256(7) == 0x100_0000_0000_0000,
        pow256(8) == 0x1_0000_0000_0000_0000,
{
    reveal_with_fuel(pow256, 9);
}

/// Placing a byte above the bits already set adds it.
proof fn lemma_xor_byte_u32(buf: u32, d: u8, k: u32)
    requires
        k < 4,
        buf < pow256(k as nat),
    ensures
        buf ^ ((d as u32) << (k * 8)) == buf + (d as nat) * pow256(k as nat),
        buf + (d as nat) * pow256(k as nat) < pow256((k + 1) as nat),
{
    lemma_pow256_values();
    let x = d as u32;
    if k == 0 {
        assert(buf < 1 ==> buf ^ (x << 0u32) == buf + x) by (bit_vector);
    } else if k == 1 {
        assert(buf < 0x100 && x < 0x100 ==> buf ^ (x << 8u32) == buf + x * 0x100) by (bit_vector);
    } else if k == 2 {
        assert(buf < 0x1_0000 && x < 0x100 ==> buf ^ (x << 16u32) == buf + x * 0x1_0000) by (bit_vector);
    } else {
        assert(buf < 0x100_0000 && x < 0x100 ==> buf ^ (x << 24u32) == buf + x * 0x100_0000) by (bit_vector);
    }
}

/// Placing a byte above the bits already set adds it.
proof fn lemma_xor_byte_u64(buf: u64, d: u8, k: u64)
    requires
        k < 8,
        buf < pow256(k as nat),
    ensures
        buf ^ ((d as u64) << (k * 8)) == buf + (d as nat) * pow256(k as nat),
        buf + (d as nat) * pow256(k as nat) < pow256((k + 1) as nat),
{
    lemma_pow256_values();
    let x = d as u64;
    assert(x < 0x100);
    assert(k < 8 && x < 0x100 && (buf as int) < (if k == 0 { 1int } else if k == 1 { 0x100int } else if k == 2 {
        0x1_0000int
    } else if k == 3 { 0x100_0000int } else if k == 4 { 0x1_0000_0000int } else if k == 5 {
        0x100_0000_0000int
    } else if k == 6 { 0x1_0000_0000_0000int } else { 0x100_0000_0000_0000int }) ==> buf ^ (x << (k * 8)) == buf + x * (
    1u64 << (k * 8))) by (bit_vector);
    assert((1u64 << (0u64 * 8)) == 1 && (1u64 << (1u64 * 8)) == 0x100 && (1u64 << (2u64 * 8)) == 0x1_0000 && (1u64
        << (3u64 * 8)) == 0x100_0000 && (1u64 << (4u64 * 8)) == 0x1_0000_0000 && (1u64 << (5u64 * 8))
        == 0x100_0000_0000 && (1u64 << (6u64 * 8)) == 0x1_0000_0000_0000 && (1u64 << (7u64 * 8))
        == 0x100_0000_0000_0000) by (bit_vector);
    assert(x * pow256(k as nat) <= 0xff * pow256(k as nat)) by (nonlinear_arith)
        requires
            x < 0x100,
    ;
}

/// The bytes of a value are those of its low and high 32-bit words.
proof fn lemma_value_bytes_split(v: Values, low: u32, high: u32, width: u32)
    requires
        (v matches Values::I32(x) && low == x as u32 && width == 4) || (v matches Values::F32(b) && low == b && width
            == 4) || (v matches Values::I64(x) && low == (x as u64) as u32 && high == ((x as u64) >> 32) as u32
            && width == 8) || (v matches Values::F64(b) && low == b as u32 && high == (b >> 32) as u32 && width == 8),
    ensures
        width == 4 ==> value_bytes(v) == le_bytes_u32(low),
        width == 8 ==> value_bytes(v) == le_bytes_u32(low) + le_bytes_u32(high),
        width == 4 || width == 8,
{
    match v {
        Values::I64(x) => {
            let b = x as u64;
            assert(b as u8 == low as u8 && (b >> 8) as u8 == (low >> 8) as u8 && (b >> 16) as u8 == (low >> 16) as u8
                && (b >> 24) as u8 == (low >> 24) as u8 && (b >> 32) as u8 == high as u8 && (b >> 40) as u8 == (
            high >> 8) as u8 && (b >> 48) as u8 == (high >> 16) as u8 && (b >> 56) as u8 == (high >> 24) as u8)
                by (bit_vector)
                requires
                    low == b as u32,
                    high == (b >> 32) as u32,
            ;
            assert(value_bytes(v) =~= le_bytes_u32(low) + le_bytes_u32(high));
        },
        Values::F64(b) => {
            assert(b as u8 == low as u8 && (b >> 8) as u8 == (low >> 8) as u8 && (b >> 16) as u8 == (low >> 16) as u8
                && (b >> 24) as u8 == (low >> 24) as u8 && (b >> 32) as u8 == high as u8 && (b >> 40) as u8 == (
            high >> 8) as u8 && (b >> 48) as u8 == (high >> 16) as u8 && (b >> 56) as u8 == (high >> 24) as u8)
                by (bit_vector)
                requires
                    low == b as u32,
                    high == (b >> 32) as u32,
            ;
            assert(value_bytes(v) =~= le_bytes_u32(low) + le_bytes_u32(high));
        },
        _ => {},
    }
}

/// The four bytes of a 32-bit word, read back, give the word.
pub proof fn lemma_le_value_u32(v: u32)
    ensures
        le_value(le_bytes_u32(v)) == v,
{
    lemma_pow256_values();
    let s = le_bytes_u32(v);
    assert(s.drop_last().drop_last().drop_last().drop_last() =~= Seq::<u8>::empty());
    reveal_with_fuel(le_value, 5);
    let (b0, b1, b2, b3) = (v as u8, (v >> 8) as u8, (v >> 16) as u8, (v >> 24) as u8);
    assert(v == b0 + b1 * 0x100 + b2 * 0x1_0000 + b3 * 0x100_0000) by (bit_vector)
        requires
            b0 == v as u8,
            b1 == (v >> 8) as u8,
            b2 == (v >> 16) as u8,
            b3 == (v >> 24) as u8,
    ;
}

/// The eight bytes of a 64-bit word, read back, give the word.
pub proof fn lemma_le_value_u64(v: u64)
    ensures
        le_value(le_bytes_u64(v)) == v,
{
    lemma_pow256_values();
    let s = le_bytes_u64(v);
    assert(s.drop_last().drop_last().drop_last().drop_last().drop_last().drop_last().drop_last().drop_last()
        =~= Seq::<u8>::empty());
    reveal_with_fuel(le_value, 9);
    let (b0, b1, b2, b3, b4, b5, b6, b7) = (
        v as u8,
        (v >> 8) as u8,
        (v >> 16) as u8,
        (v >> 24) as u8,
        (v >> 32) as u8,
        (v >> 40) as u8,
        (v >> 48) as u8,
        (v >> 56) as u8,
    );
    assert(v == b0 + b1 * 0x100 + b2 * 0x1_0000 + b3 * 0x100_0000 + b4 * 0x1_0000_0000 + b5 * 0x100_0000_0000
        + b6 * 0x1_0000_0000_0000 + b7 * 0x100_0000_0000_0000) by (bit_vector)
        requires
            b0 == v as u8,
            b1 == (v >> 8) as u8,
            b2 == (v >> 16) as u8,
            b3 == (v >> 24) as u8,
            b4 == (v >> 32) as u8,
            b5 == (v >> 40) as u8,
            b6 == (v >> 48) as u8,
            b7 == (v >> 56) as u8,
    ;
}

/// The bits of a 32-bit value as an unsigned word.
pub open spec fn word_32(v: Values) -> u32 {
    match v {
        Values::I32(x) => x as u32,
        Values::F32(b) => b,
        _ => 0,
    }
}

/// The bits of a 64-bit value as an unsigned word.
pub open spec fn word_64(v: Values) -> u64 {
    match v {
        Values::I64(x) => x as u64,
        Values::F64(b) => b,
        _ => 0,
    }
}

/// A load of the four bytes that a store of a 32-bit value wrote gives the value back.
pub proof fn lemma_load_after_store_32(data: Seq<u8>, from: nat, v: Values)
    requires
        v matches Values::I32(_) || v matches Values::F32(_),
    ensures
        le_value(mem_range(spec_allocate(data, value_bytes(v).subrange(0, 4), from), from, from + 4)) == word_32(v),
{
    let w: u32 = word_32(v);
    assert(value_bytes(v).subrange(0, 4) =~= le_bytes_u32(w));
    assert(mem_range(spec_allocate(data, le_bytes_u32(w), from), from, from + 4) =~= le_bytes_u32(w));
    lemma_le_value_u32(w);
}

/// A load of the eight bytes that a store of a 64-bit value wrote gives the value back.
pub proof fn lemma_load_after_store_64(data: Seq<u8>, from: nat, v: Values)
    requires
        v is I64 || v is F64,
    ensures
        le_value(mem_range(spec_allocate(data, value_bytes(v).subrange(0, 8), from), from, from + 8)) == word_64(v),
{
    let w: u64 = word_64(v);
    assert(value_bytes(v).subrange(0, 8) =~= le_bytes_u64(w));
    assert(mem_range(spec_allocate(data, le_bytes_u64(w), from), from, from + 8) =~= le_bytes_u64(w));
    lemma_le_value_u64(w);
}

/// A store changes no byte outside the addresses it writes.
pub proof fn lemma_store_keeps_others(data: Seq<u8>, bytes: Seq<u8>, from: nat, i: int)
    requires
        i < from || i >= from + bytes.len(),
    ensures
        mem_byte(spec_allocate(data, bytes, from), i) == mem_byte(data, i),
{
}

/// What a read gives back of a write, on a memory: once `after` holds the
/// bytes of `before` with the 32-bit value `v` stored at `from` (as
/// `store_data` leaves them), the four bytes at `from` load as `v`, and every
/// other byte loads as before.
pub proof fn lemma_memory_store_then_load_32(before: MemoryInstance, after: MemoryInstance, from: nat, v: Values)
    requires
        v is I32 || v is F32,
        after.spec_data() == spec_allocate(before.spec_data(), value_bytes(v).subrange(0, 4), from),
    ensures
        le_value(mem_range(after.spec_data(), from, from + 4)) == word_32(v),
        forall|i: int| (i < from || i >= from + 4) ==> #[trigger] mem_byte(after.spec_data(), i) == mem_byte(before.spec_data(), i),
{
    lemma_load_after_store_32(before.spec_data(), from, v);
}

/// The same for a 64-bit value and its eight bytes.
pub proof fn lemma_memory_store_then_load_64(before: MemoryInstance, after: MemoryInstance, from: nat, v: Values)
    requires
        v is I64 || v is F64,
        after.spec_data() == spec_allocate(before.spec_data(), value_bytes(v).subrange(0, 8), from),
    ensures
        le_value(mem_range(after.spec_data(), from, from + 8)) == word_64(v),
        forall|i: int| (i < from || i >= from + 8) ==> #[trigger] mem_byte(after.spec_data(), i) == mem_byte(before.spec_data(), i),
{
    lemma_load_after_store_64(before.spec_data(), from, v);
}

/// A new memory has as many pages as the minimum of its limits.
pub proof fn lemma_initial_pages(limit: Limit)
    ensures
        limit.spec_initial_min_size() / (PAGE_SIZE as nat) == limit.spec_min(),
{
    let mn = limit.spec_min() as int;
    assert((65536 * mn) / 65536 == mn) by (nonlinear_arith);
}

/// Each byte of a 64-bit word, as the bytes of `le_bytes_u64` give them, is
/// the word divided by the power of 256 of its place, modulo 256.
proof fn lemma_u64_byte_places(v: u64)
    ensures
        forall|k: int| 0 <= k < 8 ==> #[trigger] le_bytes_u64(v)[k] as nat == ((v as nat) / pow256(k as nat)) % 256,
{
    lemma_pow256_values();
    assert({
        &&& (v as u8) == (v % 0x100) as u8
        &&& ((v >> 8) as u8) == ((v / 0x100) % 0x100) as u8
        &&& ((v >> 16) as u8) == ((v / 0x1_0000) % 0x100) as u8
        &&& ((v >> 24) as u8) == ((v / 0x100_0000) % 0x100) as u8
        &&& ((v >> 32) as u8) == ((v / 0x1_0000_0000) % 0x100) as u8
        &&& ((v >> 40) as u8) == ((v / 0x100_0000_0000) % 0x100) as u8
        &&& ((v >> 48) as u8) == ((v / 0x1_0000_0000_0000) % 0x100) as u8
        &&& ((v >> 56) as u8) == ((v / 0x100_0000_0000_0000) % 0x100) as u8
    }) by (bit_vector);
    assert forall|k: int| 0 <= k < 8 implies #[trigger] le_bytes_u64(v)[k] as nat == ((v as nat) / pow256(k as nat)) % 256 by {
        if k == 0 {
        } else if k == 1 {
        } else if k == 2 {
        } else if k == 3 {
        } else if k == 4 {
        } else if k == 5 {
        } else if k == 6 {
        } else {
        }
    }
}

/// The first `w` bytes of a 64-bit word read as the word modulo `256^w`.
proof fn lemma_le_prefix_u64(v: u64, w: nat)
    requires
        w <= 8,
    ensures
        le_value(le_bytes_u64(v).subrange(0, w as int)) == (v as nat) % pow256(w),
    decreases w,
{
    let s = le_bytes_u64(v).subrange(0, w as int);
    if w == 0 {
        assert(pow256(0) == 1);
        assert(s.len() == 0);
    } else {
        let k = (w - 1) as nat;
        lemma_le_prefix_u64(v, k);
        assert(s.drop_last() =~= le_bytes_u64(v).subrange(0, k as int));
        assert(s.last() == le_bytes_u64(v)[k as int]);
        lemma_u64_byte_places(v);
        lemma_pow256_positive(k);
        lemma_mod_breakdown(v as int, pow256(k) as int, 256);
        assert(pow256(w) == pow256(k) * 256);
        assert(((s.last() as nat) * pow256(k)) == pow256(k) * (((v as nat) / pow256(k)) % 256)) by (nonlinear_arith)
            requires
                s.last() as nat == ((v as nat) / pow256(k)) % 256,
        ;
    }
}

/// Powers of 256 are positive.
proof fn lemma_pow256_positive(n: nat)
    ensures
        pow256(n) > 0,
    decreases n,
{
    if n > 0 {
        lemma_pow256_positive((n - 1) as nat);
    }
}

/// What a narrower read gives back of a 64-bit write: once `after` holds the
/// bytes of `before` with the 64-bit value `v` stored at `from`, the first `w`
/// of its eight bytes load as its bits modulo `256^w`.
pub proof fn lemma_memory_store_then_load_prefix(before: MemoryInstance, after: MemoryInstance, from: nat, v: Values, w: nat)
    requires
        v is I64 || v is F64,
        1 <= w <= 8,
        after.spec_data() == spec_allocate(before.spec_data(), value_bytes(v).subrange(0, 8), from),
    ensures
        le_value(mem_range(after.spec_data(), from, from + w)) == (word_64(v) as nat) % pow256(w),
{
    let x = word_64(v);
    assert(value_bytes(v).subrange(0, 8) =~= le_bytes_u64(x));
    assert(mem_range(after.spec_data(), from, from + w) =~= le_bytes_u64(x).subrange(0, w as int));
    lemma_le_prefix_u64(x, w);
}

} // verus!
