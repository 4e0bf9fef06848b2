//! A fixed-size ring of elements whose index space is doubled: every index in
//! `0..2*len` names the element at that index modulo `len`, so that any run of
//! at most `len` consecutive indices starting below `len` can be read or
//! written as if the storage were contiguous.
use vstd::prelude::*;

verus! {

/// Reports why the element count could not be aligned to whole pages.
#[derive(Clone, Copy, Debug, PartialEq, Eq)]
pub struct CreateAlignError {
    pub element_size: usize,
    pub total_elements: usize,
    pub size_bytes: usize,
    pub allocation_granularity: usize,
}

/// Reasons why a circular buffer could not be created.
#[derive(Clone, Copy, Debug, PartialEq, Eq)]
pub enum CreateError {
    /// The page-rounded byte size is not a whole number of elements.
    AlignmentError(CreateAlignError),
    /// The system reported no positive page size.
    UnknownAllocationGranularity,
    /// The requested byte size is more than one allocation can hold.
    FailedAllocation,
}

/// Index `i` of the doubled index space folded into `0..len`.
pub open spec fn wrap_index(i: int, len: int) -> int {
    if i < len { i } else { i - len }
}

/// Offset of position `k` after the (already folded) start position `s`.
pub open spec fn offset_from(k: int, s: int, len: int) -> int {
    if k >= s { k - s } else { k + len - s }
}

/// The `count` elements of `s` that follow index `start` in the doubled index space.
pub open spec fn wrapped_run<T>(s: Seq<T>, start: int, count: int) -> Seq<T> {
    Seq::new(count as nat, |j: int| s[wrap_index(start + j, s.len() as int)])
}

/// `s` after `src` was written at `start` in the doubled index space.
pub open spec fn wrapped_write<T>(s: Seq<T>, start: int, src: Seq<T>) -> Seq<T> {
    let len = s.len() as int;
    let first = wrap_index(start, len);
    Seq::new(s.len(), |k: int|
        if offset_from(k, first, len) < src.len() { src[offset_from(k, first, len)] } else { s[k] })
}

/// Reading back the range just written gives what was written, and, from a
/// start within the buffer, the elements after the range keep their values.
pub proof fn lemma_read_after_write<T>(s: Seq<T>, start: int, src: Seq<T>)
    requires
        0 <= start,
        src.len() <= s.len(),
        start + src.len() <= 2 * s.len(),
    ensures
        wrapped_run(wrapped_write(s, start, src), start, src.len() as int) == src,
        start < s.len() ==> forall|j: int| src.len() <= j < s.len() ==>
            #[trigger] wrapped_write(s, start, src)[wrap_index(start + j, s.len() as int)]
                == s[wrap_index(start + j, s.len() as int)],
{
    let len = s.len() as int;
    let first = wrap_index(start, len);
    let w = wrapped_write(s, start, src);
    assert forall|j: int| 0 <= j < src.len() implies #[trigger] wrapped_run(w, start, src.len() as int)[j] == src[j] by {
        let k = wrap_index(start + j, len);
        assert(offset_from(k, first, len) == j);
    }
    assert(wrapped_run(w, start, src.len() as int) =~= src);
    if start < len {
        assert forall|j: int| src.len() <= j < s.len() implies
            #[trigger] w[wrap_index(start + j, len)] == s[wrap_index(start + j, len)] by {
            let k = wrap_index(start + j, len);
            assert(offset_from(k, first, len) == j);
        }
    }
}

/// How many elements a buffer gets for a request of `total_elements`
/// elements of `element_size` bytes when memory comes in pages of
/// `granularity` bytes: the byte size is rounded down to whole pages, with at
/// least one page, and must then hold a whole number of elements; a byte
/// size that does so but exceeds `isize::MAX` cannot be allocated.
pub open spec fn aligned_length_spec(element_size: nat, total_elements: nat, granularity: nat) -> Result<nat, CreateError> {
    let requested = element_size * total_elements;
    let multiple = if requested / granularity >= 1 { requested / granularity } else { 1 };
    let size_bytes = multiple * granularity;
    if element_size == 0 {
        Err(CreateError::AlignmentError(CreateAlignError {
            element_size: 0, total_elements: 0, size_bytes: 0, allocation_granularity: granularity as usize,
        }))
    } else if requested > usize::MAX || size_bytes > usize::MAX {
        Err(CreateError::FailedAllocation)
    } else if size_bytes % element_size != 0 {
        Err(CreateError::AlignmentError(CreateAlignError {
            element_size: element_size as usize,
            total_elements: (size_bytes / element_size) as usize,
            size_bytes: size_bytes as usize,
            allocation_granularity: granularity as usize,
        }))
    } else if size_bytes > isize::MAX {
        Err(CreateError::FailedAllocation)
    } else {
        Ok(size_bytes / element_size)
    }
}

/// Wraps `nix::unistd::sysconf(SysconfVar::PAGE_SIZE)`; gives back the value
/// it reported, or `None` where it reported an error or no value. Nothing is
/// claimed of the value: it is whatever the running system reports.
#[verifier::external_body]
fn sysconf_page_size() -> (r: Option<i64>) {
    match nix::unistd::sysconf(nix::unistd::SysconfVar::PAGE_SIZE) {
        Ok(Some(v)) => Some(v as i64),
        _ => None,
    }
}

/// The allocation unit for a page size the system reported: the page size
/// where it is positive and fits in a `usize`, none otherwise.
pub open spec fn granularity_spec(reported: Option<i64>) -> Option<usize> {
    match reported {
        Some(v) => if 0 < v && v <= usize::MAX { Some(v as usize) } else { None },
        None => None,
    }
}

/// The allocation unit for the page size `reported` by the system (see `granularity_spec`).
pub fn granularity_from_page_size(reported: Option<i64>) -> (r: Option<usize>)
    ensures
        r == granularity_spec(reported),
{
    match reported {
        Some(v) => {
            if v > 0 && (v as u64) <= (usize::MAX as u64) {
                Some(v as usize)
            } else {
                None
            }
        },
        None => None,
    }
}

/// The page size of the running system, the unit in which circular buffers
/// are allocated; `None` where the system reports none.
pub fn get_allocation_granularity() -> (r: Option<usize>)
    ensures
        r matches Some(g) ==> g > 0,
        exists|reported: Option<i64>| r == granularity_spec(reported),
{
    let reported = sysconf_page_size();
    granularity_from_page_size(reported)
}

/// The element count of a buffer for `total_elements` elements of
/// `element_size` bytes, allocated in pages of `granularity` bytes.
pub fn aligned_length(element_size: usize, total_elements: usize, granularity: usize) -> (r: Result<usize, CreateError>)
    requires
        granularity > 0,
    ensures
        r matches Ok(n) ==> aligned_length_spec(element_size as nat, total_elements as nat, granularity as nat) == Ok::<nat, CreateError>(n as nat),
        r matches Err(e) ==> aligned_length_spec(element_size as nat, total_elements as nat, granularity as nat) == Err::<nat, CreateError>(e),
{
    if element_size == 0 {
        return Err(CreateError::AlignmentError(CreateAlignError {
            element_size: 0, total_elements: 0, size_bytes: 0, allocation_granularity: granularity,
        }));
    }
    let requested = match element_size.checked_mul(total_elements) {
        Some(v) => v,
        None => { return Err(CreateError::FailedAllocation); },
    };
    let multiple = if requested / granularity >= 1 { requested / granularity } else { 1 };
    let size_bytes = match multiple.checked_mul(granularity) {
        Some(v) => v,
        None => { return Err(CreateError::FailedAllocation); },
    };
    if size_bytes % element_size != 0 {
        return Err(CreateError::AlignmentError(CreateAlignError {
            element_size,
            total_elements: size_bytes / element_size,
            size_bytes,
            allocation_granularity: granularity,
        }));
    }
    if size_bytes > isize::MAX as usize {
        return Err(CreateError::FailedAllocation);
    }
    Ok(size_bytes / element_size)
}

/// Whether `v` is a value that `T::default()` can give.
pub open spec fn is_default_value<T: Default>(v: T) -> bool {
    call_ensures(T::default, (), v)
}

/// A ring of `len` elements addressed through the indices `0..2*len`.
#[derive(Debug)]
pub struct CircularBuffer<T> {
    data: Vec<T>,
}

impl<T> View for CircularBuffer<T> {
    type V = Seq<T>;

    closed spec fn view(&self) -> Seq<T> {
        self.data@
    }
}

impl<T> CircularBuffer<T> {
    /// The number of distinct elements.
    pub fn len(&self) -> (r: usize)
        ensures
            r == self@.len(),
    {
        self.data.len()
    }

    /// All elements in storage order.
    pub fn as_slice(&self) -> (r: &[T])
        ensures
            r@ == self@,
    {
        self.data.as_slice()
    }
}

impl<T> CircularBuffer<T> {
    /// All elements in storage order, to change in place.
    pub fn as_mut_slice(&mut self) -> (r: &mut [T])
        ensures
            r@ == old(self)@,
            final(self)@ == final(r)@,
    {
        self.data.as_mut_slice()
    }
}

impl<T: Copy> Clone for CircularBuffer<T> {
    /// A buffer of the same length holding the same elements.
    fn clone(&self) -> (r: Self)
        ensures
            r@ == self@,
    {
        let len = self.data.len();
        let mut data: Vec<T> = Vec::with_capacity(len);
        let mut i: usize = 0;
        while i < len
            invariant
                i <= len,
                len == self@.len(),
                data@ == self@.take(i as int),
            decreases len - i,
        {
            data.push(self.data[i]);
            i = i + 1;
            proof { assert(data@ =~= self@.take(i as int)); }
        }
        proof { assert(self@.take(len as int) =~= self@); }
        CircularBuffer { data }
    }
}

/// The indices `i` and `i + len` of the doubled index space name the same
/// element: what a store through one of them puts there, a read through the
/// other finds.
pub proof fn lemma_doubled_indices_alias<T>(s: Seq<T>, i: int, value: T)
    requires
        0 <= i < s.len(),
    ensures
        wrap_index(i + s.len(), s.len() as int) == wrap_index(i, s.len() as int),
        s.update(wrap_index(i + s.len(), s.len() as int), value)[wrap_index(i, s.len() as int)] == value,
        s.update(wrap_index(i, s.len() as int), value)[wrap_index(i + s.len(), s.len() as int)] == value,
{
}

impl<T: Copy> CircularBuffer<T> {
    /// A buffer of `len` copies of `value`.
    pub fn filled(len: usize, value: T) -> (r: Self)
        ensures
            r@ == Seq::new(len as nat, |i: int| value),
    {
        let mut data: Vec<T> = Vec::with_capacity(len);
        let mut i: usize = 0;
        while i < len
            invariant
                i <= len,
                data@ == Seq::new(i as nat, |k: int| value),
            decreases len - i,
        {
            data.push(value);
            i = i + 1;
        }
        CircularBuffer { data }
    }

    /// A buffer for `total_elements` elements allocated in pages of
    /// `granularity` bytes, every element equal to one value `T::default()` gave.
    pub fn with_granularity(total_elements: usize, granularity: usize) -> (r: Result<Self, CreateError>)
        where T: Default
        requires
            granularity > 0,
        ensures
            r matches Ok(b) ==> {
                &&& aligned_length_spec(vstd::layout::size_of::<T>(), total_elements as nat, granularity as nat)
                        == Ok::<nat, CreateError>(b@.len())
                &&& 0 < b@.len() <= isize::MAX
                &&& forall|i: int, j: int| 0 <= i < b@.len() && 0 <= j < b@.len() ==> b@[i] == b@[j]
                &&& forall|i: int| 0 <= i < b@.len() ==> is_default_value(#[trigger] b@[i])
            },
            r matches Err(e) ==> aligned_length_spec(vstd::layout::size_of::<T>(), total_elements as nat, granularity as nat)
                == Err::<nat, CreateError>(e),
    {
        let element_size = core::mem::size_of::<T>();
        let len = aligned_length(element_size, total_elements, granularity)?;
        proof {
            lemma_aligned_length_positive(element_size as nat, total_elements as nat, granularity as nat);
        }
        let value = T::default();
        Ok(Self::filled(len, value))
    }

    /// A buffer for `total_elements` elements allocated in pages of the
    /// running system's page size, every element equal to one value
    /// `T::default()` gave.
    pub fn new(total_elements: usize) -> (r: Result<Self, CreateError>)
        where T: Default
        ensures
            r matches Ok(b) ==> {
                &&& 0 < b@.len() <= isize::MAX
                &&& exists|g: nat| g > 0 && aligned_length_spec(vstd::layout::size_of::<T>(), total_elements as nat, g)
                        == Ok::<nat, CreateError>(b@.len())
                &&& forall|i: int, j: int| 0 <= i < b@.len() && 0 <= j < b@.len() ==> b@[i] == b@[j]
                &&& forall|i: int| 0 <= i < b@.len() ==> is_default_value(#[trigger] b@[i])
            },
            r matches Err(e) ==> e == CreateError::UnknownAllocationGranularity
                || exists|g: nat| g > 0 && aligned_length_spec(vstd::layout::size_of::<T>(), total_elements as nat, g)
                    == Err::<nat, CreateError>(e),
    {
        match get_allocation_granularity() {
            Some(g) => Self::with_granularity(total_elements, g),
            None => Err(CreateError::UnknownAllocationGranularity),
        }
    }

    /// The element named by `index` in the doubled index space.
    pub fn get(&self, index: usize) -> (r: T)
        requires
            index < 2 * self@.len(),
        ensures
            r == self@[wrap_index(index as int, self@.len() as int)],
    {
        let len = self.data.len();
        if index < len { self.data[index] } else { self.data[index - len] }
    }

    /// Stores `value` at the element named by `index` in the doubled index space.
    pub fn set(&mut self, index: usize, value: T)
        requires
            index < 2 * old(self)@.len(),
        ensures
            final(self)@ == old(self)@.update(wrap_index(index as int, old(self)@.len() as int), value),
        no_unwind
    {
        let len = self.data.len();
        let i = if index < len { index } else { index - len };
        self.data[i] = value;
    }

    /// The elements named by `start..end`, cut to at most `len` elements.
    pub fn read_range(&self, start: usize, end: usize) -> (r: Vec<T>)
        requires
            start <= end <= 2 * self@.len(),
        ensures
            r@ == wrapped_run(self@, start as int,
                if end - start <= self@.len() { end - start } else { self@.len() as int }),
    {
        let len = self.data.len();
        let count = if end - start <= len { end - start } else { len };
        let mut out: Vec<T> = Vec::with_capacity(count);
        let mut j: usize = 0;
        while j < count
            invariant
                j <= count <= len,
                len == self@.len(),
                start + count <= end,
                end <= 2 * len,
                out@ == wrapped_run(self@, start as int, j as int),
            decreases count - j,
        {
            let v = self.get(start + j);
            out.push(v);
            proof {
                assert(out@ =~= wrapped_run(self@, start as int, j + 1));
            }
            j = j + 1;
        }
        out
    }

    /// Writes `src` to the elements named by `start..start+src.len()`.
    pub fn write_range(&mut self, start: usize, src: &Vec<T>)
        requires
            src@.len() <= old(self)@.len(),
            start + src@.len() <= 2 * old(self)@.len(),
            start + src@.len() <= usize::MAX,
        ensures
            final(self)@ == wrapped_write(old(self)@, start as int, src@),
        no_unwind
    {
        let len = self.data.len();
        let ghost first = wrap_index(start as int, len as int);
        let ghost orig = self@;
        let mut i: usize = 0;
        while i < src.len()
            invariant
                i <= src@.len() <= len,
                len == self@.len(),
                len == orig.len(),
                start + src@.len() <= 2 * len,
                start + src@.len() <= usize::MAX,
                first == wrap_index(start as int, len as int),
                self@ == Seq::new(len as nat, |k: int|
                    if offset_from(k, first, len as int) < i { src@[offset_from(k, first, len as int)] } else { orig[k] }),
            decreases src@.len() - i,
        {
            let ghost before = self@;
            self.set(start + i, src[i]);
            proof {
                let pos = wrap_index(start + i, len as int);
                assert(offset_from(pos, first, len as int) == i);
                assert forall|k: int| 0 <= k < len && k != pos implies offset_from(k, first, len as int) != i by {}
                assert(self@ =~= Seq::new(len as nat, |k: int|
                    if offset_from(k, first, len as int) < i + 1 { src@[offset_from(k, first, len as int)] } else { orig[k] }));
            }
            i = i + 1;
        }
        proof {
            assert(self@ =~= wrapped_write(orig, start as int, src@));
        }
    }
}

proof fn lemma_aligned_length_positive(element_size: nat, total_elements: nat, granularity: nat)
    requires
        granularity > 0,
    ensures
        aligned_length_spec(element_size, total_elements, granularity) matches Ok(n) ==> 0 < n <= isize::MAX,
{
    let requested = element_size * total_elements;
    let multiple = if requested / granularity >= 1 { requested / granularity } else { 1 };
    let size_bytes = multiple * granularity;
    if element_size > 0 && size_bytes % element_size == 0 {
        assert(size_bytes >= granularity) by (nonlinear_arith)
            requires multiple >= 1, size_bytes == multiple * granularity, granularity > 0;
        assert(size_bytes / element_size > 0) by (nonlinear_arith)
            requires size_bytes > 0, element_size > 0, size_bytes % element_size == 0;
        assert(size_bytes / element_size <= size_bytes) by (nonlinear_arith)
            requires size_bytes > 0, element_size > 0;
    }
}

/// The byte size a buffer of `total_elements` elements of `element_size`
/// bytes takes in pages of `granularity` bytes: rounded down to whole pages,
/// at least one page.
pub open spec fn allocation_bytes(element_size: nat, total_elements: nat, granularity: nat) -> nat {
    let requested = element_size * total_elements;
    let multiple = if requested / granularity >= 1 { requested / granularity } else { 1 };
    multiple * granularity
}

/// How a buffer is sized: the request fails on alignment exactly when the
/// page-rounded byte size is not a whole number of elements; where it is,
/// and fits, the buffer holds that many elements, at least one, and they
/// fill whole pages.
pub proof fn lemma_aligned_length_law(element_size: nat, total_elements: nat, granularity: nat)
    requires
        element_size > 0,
        0 < granularity <= usize::MAX,
        element_size * total_elements <= usize::MAX,
    ensures
        ({
            let bytes = allocation_bytes(element_size, total_elements, granularity);
            let r = aligned_length_spec(element_size, total_elements, granularity);
            &&& (r matches Err(CreateError::AlignmentError(_))) <==> bytes % element_size != 0
            &&& bytes % element_size == 0 && bytes <= isize::MAX ==> r == Ok::<nat, CreateError>(bytes / element_size)
            &&& r matches Ok(len) ==> len >= 1 && (len * element_size) % granularity == 0
        }),
{
    let requested = element_size * total_elements;
    let multiple = if requested / granularity >= 1 { requested / granularity } else { 1 };
    let bytes = multiple * granularity;
    assert(bytes == allocation_bytes(element_size, total_elements, granularity));
    if requested / granularity >= 1 {
        vstd::arithmetic::div_mod::lemma_fundamental_div_mod(requested as int, granularity as int);
        vstd::arithmetic::div_mod::lemma_mod_pos_bound(requested as int, granularity as int);
        assert(bytes <= requested) by (nonlinear_arith)
            requires
                bytes == multiple * granularity,
                multiple == requested / granularity,
                requested == granularity * (requested / granularity) + requested % granularity,
                requested % granularity >= 0;
    }
    lemma_aligned_length_positive(element_size, total_elements, granularity);
    if bytes % element_size == 0 {
        vstd::arithmetic::div_mod::lemma_fundamental_div_mod(bytes as int, element_size as int);
        let len = bytes / element_size;
        assert(len * element_size == bytes) by (nonlinear_arith)
            requires bytes == element_size * len + bytes % element_size, bytes % element_size == 0;
        vstd::arithmetic::div_mod::lemma_mod_multiples_basic(multiple as int, granularity as int);
    }
}

} // verus!
