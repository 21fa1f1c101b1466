use vstd::prelude::*;

use crate::arith::{filled, Arith};
use crate::error::{KernelError, OcelotlError};
use crate::text::Text;
use vstd::slice::slice_subrange;

verus! {

/// Where a tensor lives.
#[derive(Debug, Clone, Copy, PartialEq, Eq)]
pub enum Residency {
    Host,
    Device(&'static str),
}

/// A buffer: values on the host, or a number of values that a backend keeps on
/// its device.
#[derive(Debug)]
pub enum Buffer<T> {
    Host(Vec<T>),
    Device { backend: &'static str, len: usize },
}

/// What a buffer holds, as far as the host knows.
pub enum BufferView<T> {
    Host(Seq<T>),
    Device { backend: Seq<char>, len: nat },
}

impl<T> BufferView<T> {
    /// The number of values.
    pub open spec fn len(self) -> nat {
        match self {
            BufferView::Host(v) => v.len(),
            BufferView::Device { len, .. } => len,
        }
    }
}

impl<T> View for Buffer<T> {
    type V = BufferView<T>;

    open spec fn view(&self) -> BufferView<T> {
        match *self {
            Buffer::Host(v) => BufferView::Host(v@),
            Buffer::Device { backend, len } => BufferView::Device {
                backend: backend@,
                len: len as nat,
            },
        }
    }
}

/// The buffers that tensors are handles to.
#[derive(Debug)]
pub struct TensorStore<T> {
    buffers: Vec<Buffer<T>>,
}

impl<T> View for TensorStore<T> {
    type V = Seq<BufferView<T>>;

    closed spec fn view(&self) -> Seq<BufferView<T>> {
        Seq::new(self.buffers@.len(), |i: int| self.buffers@[i]@)
    }
}

impl<T> TensorStore<T> {
    /// A store without buffers.
    pub fn new() -> (r: Self)
        ensures
            r@ == Seq::<BufferView<T>>::empty(),
    {
        let r = TensorStore { buffers: Vec::new() };
        assert(r@ =~= Seq::<BufferView<T>>::empty());
        r
    }
}

/// A handle to a tensor: a whole buffer, or a read-only range of one. A copy of
/// a handle shares the buffer.
#[derive(Debug, Clone, Copy)]
pub struct DeviceTensor {
    buffer: usize,
    range: Option<(usize, usize)>,
}

/// A kernel error that a tensor raises.
pub open spec fn tensor_error(message: Seq<char>) -> crate::error::ErrorView {
    crate::error::ErrorView::Kernel { backend: "tensor"@, message }
}

fn tensor_err(message: String) -> (e: OcelotlError)
    ensures
        e@ == tensor_error(message@),
{
    OcelotlError::Kernel(KernelError { backend: String::from_str("tensor"), message })
}

/// What reading a tensor on the host takes.
#[derive(Debug)]
pub enum HostRead<T> {
    /// The values.
    Ready(Vec<T>),
    /// The buffer's values have to be read back, and `len` of them from `offset`
    /// on taken.
    Readback { buffer: usize, offset: usize, len: usize },
}

/// What comes of writing a tensor.
#[derive(Debug)]
pub enum HostWrite {
    /// The values were written.
    Done,
    /// The buffer is on a device, and its backend has to take the values.
    Upload { buffer: usize },
}

impl DeviceTensor {
    /// The index of the buffer.
    pub closed spec fn buffer_index(self) -> int {
        self.buffer as int
    }

    /// Whether the handle is a range of a buffer.
    pub closed spec fn is_view(self) -> bool {
        self.range is Some
    }

    /// The first value of the tensor in its buffer.
    pub closed spec fn start(self) -> int {
        match self.range {
            Some((offset, _)) => offset as int,
            None => 0,
        }
    }

    /// The number of values.
    pub closed spec fn size<T>(self, s: Seq<BufferView<T>>) -> nat {
        match self.range {
            Some((_, len)) => len as nat,
            None => s[self.buffer as int].len(),
        }
    }

    /// The buffer exists, and the tensor lies inside of it.
    pub open spec fn valid<T>(self, s: Seq<BufferView<T>>) -> bool {
        &&& 0 <= self.buffer_index() < s.len()
        &&& 0 <= self.start()
        &&& self.start() + self.size(s) <= s[self.buffer_index()].len()
        &&& !self.is_view() ==> self.start() == 0 && self.size(s) == s[self.buffer_index()].len()
    }

    /// The values, if they are on the host.
    pub open spec fn values<T>(self, s: Seq<BufferView<T>>) -> Option<Seq<T>> {
        match s[self.buffer_index()] {
            BufferView::Host(v) => Some(v.subrange(self.start(), self.start() + self.size(s))),
            BufferView::Device { .. } => None,
        }
    }

    /// Whether the tensor lies inside of a buffer of the store.
    pub fn belongs_to<T>(&self, store: &TensorStore<T>) -> (r: bool)
        ensures
            r == self.valid(store@),
    {
        if self.buffer >= store.buffers.len() {
            return false;
        }
        let b: &Buffer<T> = &store.buffers[self.buffer];
        assert(store@[self.buffer as int] == b@);
        let total: usize = match b {
            Buffer::Host(v) => v.len(),
            Buffer::Device { len, .. } => *len,
        };
        match self.range {
            Some((offset, len)) => offset <= total && len <= total - offset,
            None => true,
        }
    }

    /// A tensor of values on the host.
    pub fn from_host<T>(store: &mut TensorStore<T>, v: Vec<T>) -> (r: Self)
        ensures
            final(store)@ == old(store)@.push(BufferView::Host(v@)),
            r.buffer_index() == old(store)@.len(),
            !r.is_view(),
            r.valid(final(store)@),
    {
        let buffer: usize = store.buffers.len();
        store.buffers.push(Buffer::Host(v));
        assert(store@ =~= old(store)@.push(BufferView::Host(v@)));
        DeviceTensor { buffer, range: None }
    }

    /// A tensor of zeros on the host.
    pub fn host_zeros<T: Copy, A: Arith<T>>(ar: &A, store: &mut TensorStore<T>, len: usize) -> (r:
        Self)
        ensures
            exists|zero: T| #[trigger]
                crate::arith::converts(ar, 0, zero) && final(store)@ == old(store)@.push(
                    BufferView::Host(Seq::new(len as nat, |i: int| zero)),
                ),
            r.buffer_index() == old(store)@.len(),
            !r.is_view(),
            r.valid(final(store)@),
    {
        let zero: T = ar.from_int(0);
        let v: Vec<T> = filled(zero, len);
        proof {
            assert(crate::arith::converts(ar, 0, zero));
            assert(v@ =~= Seq::new(len as nat, |i: int| zero));
        }
        DeviceTensor::from_host(store, v)
    }

    /// A tensor that a backend keeps on its device.
    pub fn from_device<T>(store: &mut TensorStore<T>, backend: &'static str, len: usize) -> (r:
        Self)
        ensures
            final(store)@ == old(store)@.push(
                BufferView::Device { backend: backend@, len: len as nat },
            ),
            r.buffer_index() == old(store)@.len(),
            !r.is_view(),
            r.valid(final(store)@),
    {
        let buffer: usize = store.buffers.len();
        store.buffers.push(Buffer::Device { backend, len });
        assert(store@ =~= old(store)@.push(
            BufferView::Device { backend: backend@, len: len as nat },
        ));
        DeviceTensor { buffer, range: None }
    }

    /// When a view is refused, and how.
    pub open spec fn view_refusal(is_view: bool, src_len: nat, offset: nat, len: nat) -> crate::shapes::Refusal {
        if offset + len > src_len {
            let end = if offset + len > usize::MAX {
                usize::MAX as nat
            } else {
                offset + len
            };
            Some(
                tensor_error(
                    "DeviceTensor::view range "@ + crate::text::dec(offset) + ".."@
                        + crate::text::dec(end) + " exceeds source length "@ + crate::text::dec(
                        src_len,
                    ),
                ),
            )
        } else if is_view {
            Some(
                tensor_error(
                    "DeviceTensor::view does not nest; resolve the source view first"@,
                ),
            )
        } else {
            None
        }
    }

    /// A read-only range of a tensor that is not itself a view.
    pub fn view<T>(store: &TensorStore<T>, source: &DeviceTensor, offset: usize, len: usize) -> (r:
        Result<Self, OcelotlError>)
        requires
            source.valid(store@),
        ensures
            crate::shapes::refused(r) == DeviceTensor::view_refusal(
                source.is_view(),
                source.size(store@),
                offset as nat,
                len as nat,
            ),
            r matches Ok(t) ==> {
                &&& t.valid(store@)
                &&& t.is_view()
                &&& t.buffer_index() == source.buffer_index()
                &&& t.start() == offset
                &&& t.size(store@) == len
            },
    {
        let src_len: usize = source.len(store);
        let end: Option<usize> = offset.checked_add(len);
        let past: bool = match end {
            Some(e) => e > src_len,
            None => true,
        };
        if past {
            let shown: usize = match end {
                Some(e) => e,
                None => usize::MAX,
            };
            return Err(
                tensor_err(
                    Text::new("DeviceTensor::view range ").n(offset).s("..").n(shown).s(
                        " exceeds source length ",
                    ).n(src_len).done(),
                ),
            );
        }
        if source.range.is_some() {
            return Err(
                tensor_err(
                    String::from_str(
                        "DeviceTensor::view does not nest; resolve the source view first",
                    ),
                ),
            );
        }
        Ok(DeviceTensor { buffer: source.buffer, range: Some((offset, len)) })
    }

    /// The number of values.
    pub fn len<T>(&self, store: &TensorStore<T>) -> (r: usize)
        requires
            self.valid(store@),
        ensures
            r == self.size(store@),
    {
        match self.range {
            Some((_, len)) => len,
            None => {
                let b: &Buffer<T> = &store.buffers[self.buffer];
                assert(store@[self.buffer as int] == b@);
                match b {
                    Buffer::Host(v) => v.len(),
                    Buffer::Device { len, .. } => *len,
                }
            },
        }
    }

    /// Whether there is no value.
    pub fn is_empty<T>(&self, store: &TensorStore<T>) -> (r: bool)
        requires
            self.valid(store@),
        ensures
            r == (self.size(store@) == 0),
    {
        self.len(store) == 0
    }

    /// Where the tensor lives.
    pub open spec fn place<T>(self, s: Seq<BufferView<T>>) -> Option<Seq<char>> {
        match s[self.buffer_index()] {
            BufferView::Host(_) => None,
            BufferView::Device { backend, .. } => Some(backend),
        }
    }

    /// Where the tensor lives; a view lives where its source does.
    pub fn residency<T>(&self, store: &TensorStore<T>) -> (r: Residency)
        requires
            self.valid(store@),
        ensures
            match r {
                Residency::Host => self.place(store@) is None,
                Residency::Device(id) => self.place(store@) == Some(id@),
            },
    {
        let b: &Buffer<T> = &store.buffers[self.buffer];
        assert(store@[self.buffer as int] == b@);
        match b {
            Buffer::Host(_) => Residency::Host,
            Buffer::Device { backend, .. } => Residency::Device(*backend),
        }
    }

    /// When borrowing a tensor's values is refused, and how.
    pub open spec fn borrow_refusal<T>(self, s: Seq<BufferView<T>>) -> crate::shapes::Refusal {
        match s[self.buffer_index()] {
            BufferView::Host(_) => None,
            BufferView::Device { backend, .. } => Some(
                tensor_error(
                    if self.is_view() {
                        "DeviceTensor::borrow_host_slice: view source is not host-resident"@
                    } else {
                        "DeviceTensor::borrow_host_slice: backing is device-resident on "@ + backend
                            + "; call to_host_owned() instead"@
                    },
                ),
            ),
        }
    }

    /// The values of a tensor on the host.
    pub fn borrow_host_slice<'a, T>(&self, store: &'a TensorStore<T>) -> (r: Result<
        &'a [T],
        OcelotlError,
    >)
        requires
            self.valid(store@),
        ensures
            crate::shapes::refused(r) == self.borrow_refusal(store@),
            r matches Ok(v) ==> self.values(store@) == Some(v@),
    {
        let b: &Buffer<T> = &store.buffers[self.buffer];
        assert(store@[self.buffer as int] == b@);
        match b {
            Buffer::Host(v) => {
                match self.range {
                    Some((offset, len)) => {
                        let total: usize = v.len();
                        assert(offset + len <= total);
                        Ok(slice_subrange(v.as_slice(), offset, offset + len))
                    },
                    None => {
                        assert(v@.subrange(0, v@.len() as int) =~= v@);
                        Ok(v.as_slice())
                    },
                }
            },
            Buffer::Device { backend, .. } => if self.range.is_some() {
                Err(
                    tensor_err(
                        String::from_str(
                            "DeviceTensor::borrow_host_slice: view source is not host-resident",
                        ),
                    ),
                )
            } else {
                Err(
                    tensor_err(
                        Text::new(
                            "DeviceTensor::borrow_host_slice: backing is device-resident on ",
                        ).s(*backend).s("; call to_host_owned() instead").done(),
                    ),
                )
            },
        }
    }

    /// When borrowing a tensor's values for writing is refused, and how.
    pub open spec fn borrow_mut_refusal<T>(self, s: Seq<BufferView<T>>) -> crate::shapes::Refusal {
        if self.is_view() {
            Some(
                tensor_error("DeviceTensor::borrow_host_slice_mut: views are read-only"@),
            )
        } else {
            match s[self.buffer_index()] {
                BufferView::Host(_) => None,
                BufferView::Device { backend, .. } => Some(
                    tensor_error(
                        "DeviceTensor::borrow_host_slice_mut: backing is device-resident on "@
                            + backend + "; call write_from_host_slice() instead"@,
                    ),
                ),
            }
        }
    }

    /// The values of a tensor on the host, for writing; a view is read-only.
    pub fn borrow_host_slice_mut<'a, T>(&self, store: &'a mut TensorStore<T>) -> (r: Result<
        &'a mut [T],
        OcelotlError,
    >)
        requires
            self.valid(old(store)@),
        ensures
            crate::shapes::refused(r) == self.borrow_mut_refusal(old(store)@),
            match r {
                Ok(v) => {
                    &&& self.values(old(store)@) == Some(v@)
                    &&& final(store)@ == old(store)@.update(
                        self.buffer_index(),
                        BufferView::Host(final(v)@),
                    )
                },
                Err(_) => final(store)@ == old(store)@,
            },
    {
        if self.range.is_some() {
            return Err(
                tensor_err(
                    String::from_str("DeviceTensor::borrow_host_slice_mut: views are read-only"),
                ),
            );
        }
        let b: &mut Buffer<T> = &mut store.buffers[self.buffer];
        match b {
            Buffer::Host(v) => Ok(v.as_mut_slice()),
            Buffer::Device { backend, .. } => Err(
                tensor_err(
                    Text::new(
                        "DeviceTensor::borrow_host_slice_mut: backing is device-resident on ",
                    ).s(*backend).s("; call write_from_host_slice() instead").done(),
                ),
            ),
        }
    }

    /// The buffer of a tensor that is a whole buffer on a device.
    pub fn try_as_device_buffer<T>(&self, store: &TensorStore<T>) -> (r: Option<usize>)
        requires
            self.valid(store@),
        ensures
            match r {
                Some(b) => !self.is_view() && self.place(store@) is Some && b
                    == self.buffer_index(),
                None => self.is_view() || self.place(store@) is None,
            },
    {
        if self.range.is_some() {
            return None;
        }
        match self.residency(store) {
            Residency::Host => None,
            Residency::Device(_) => Some(self.buffer),
        }
    }

    /// A copy of the values of a tensor on the host, or what has to be read back
    /// for it.
    pub fn to_host_owned<T: Copy>(&self, store: &TensorStore<T>) -> (r: HostRead<T>)
        requires
            self.valid(store@),
        ensures
            match r {
                HostRead::Ready(v) => self.values(store@) == Some(v@),
                HostRead::Readback { buffer, offset, len } => {
                    &&& self.place(store@) is Some
                    &&& buffer == self.buffer_index()
                    &&& offset == self.start()
                    &&& len == self.size(store@)
                },
            },
    {
        let b: &Buffer<T> = &store.buffers[self.buffer];
        assert(store@[self.buffer as int] == b@);
        match b {
            Buffer::Host(v) => {
                let (offset, len): (usize, usize) = match self.range {
                    Some((offset, len)) => (offset, len),
                    None => (0, v.len()),
                };
                HostRead::Ready(copied(v.as_slice(), offset, len))
            },
            Buffer::Device { len, .. } => match self.range {
                Some((offset, len)) => HostRead::Readback { buffer: self.buffer, offset, len },
                None => HostRead::Readback { buffer: self.buffer, offset: 0, len: *len },
            },
        }
    }

    /// When writing a tensor is refused, and how.
    pub open spec fn write_refusal<T>(self, s: Seq<BufferView<T>>, src_len: nat) -> crate::shapes::Refusal {
        if src_len != self.size(s) {
            Some(
                tensor_error(
                    "DeviceTensor::write_from_host_slice: src.len()="@ + crate::text::dec(src_len)
                        + " != tensor len "@ + crate::text::dec(self.size(s)),
                ),
            )
        } else if self.is_view() {
            Some(tensor_error("DeviceTensor::write_from_host_slice: views are read-only"@))
        } else {
            None
        }
    }

    /// Writes all values of a tensor; where its buffer is on a device, the
    /// backend has to take them.
    pub fn write_from_host_slice<T: Copy>(&self, store: &mut TensorStore<T>, src: &[T]) -> (r:
        Result<HostWrite, OcelotlError>)
        requires
            self.valid(old(store)@),
        ensures
            crate::shapes::refused(r) == self.write_refusal(old(store)@, src@.len()),
            match r {
                Ok(HostWrite::Done) => {
                    &&& self.place(old(store)@) is None
                    &&& final(store)@ == old(store)@.update(
                        self.buffer_index(),
                        BufferView::Host(src@),
                    )
                },
                Ok(HostWrite::Upload { buffer }) => {
                    &&& self.place(old(store)@) is Some
                    &&& buffer == self.buffer_index()
                    &&& final(store)@ == old(store)@
                },
                Err(_) => final(store)@ == old(store)@,
            },
    {
        let expected: usize = self.len(store);
        if src.len() != expected {
            return Err(
                tensor_err(
                    Text::new("DeviceTensor::write_from_host_slice: src.len()=").n(src.len()).s(
                        " != tensor len ",
                    ).n(expected).done(),
                ),
            );
        }
        if self.range.is_some() {
            return Err(
                tensor_err(
                    String::from_str("DeviceTensor::write_from_host_slice: views are read-only"),
                ),
            );
        }
        match self.residency(store) {
            Residency::Host => {
                let v: Vec<T> = copied(src, 0, src.len());
                let ghost before = store@;
                store.buffers.set(self.buffer, Buffer::Host(v));
                proof {
                    assert(src@.subrange(0, src@.len() as int) =~= src@);
                    assert(store@ =~= before.update(
                        self.buffer as int,
                        BufferView::Host(src@),
                    ));
                }
                Ok(HostWrite::Done)
            },
            Residency::Device(_) => Ok(HostWrite::Upload { buffer: self.buffer }),
        }
    }
}

/// `len` values from `offset` on.
fn copied<T: Copy>(v: &[T], offset: usize, len: usize) -> (r: Vec<T>)
    requires
        offset + len <= v@.len(),
    ensures
        r@ == v@.subrange(offset as int, offset + len),
{
    let total: usize = v.len();
    let mut r: Vec<T> = Vec::with_capacity(len);
    let mut i: usize = 0;
    while i < len
        invariant
            offset + len <= v@.len() == total,
            i <= len,
            r@ == v@.subrange(offset as int, offset + i),
        decreases len - i,
    {
        r.push(v[offset + i]);
        i = i + 1;
        assert(r@ =~= v@.subrange(offset as int, offset + i));
    }
    r
}

/// The values of a tensor on a device, out of those of its buffer.
pub fn readback_values<T: Copy>(values: &[T], offset: usize, len: usize) -> (r: Vec<T>)
    requires
        offset + len <= values@.len(),
    ensures
        r@ == values@.subrange(offset as int, offset + len),
{
    copied(values, offset, len)
}

/// A handle stays valid, and keeps its size, whatever buffers are added and
/// whatever is written: a write keeps the length of its buffer.
pub proof fn handles_stay_valid<T>(t: DeviceTensor, s: Seq<BufferView<T>>, b: int, new: BufferView<T>)
    requires
        t.valid(s),
    ensures
        t.valid(s.push(new)),
        t.size(s.push(new)) == t.size(s),
        0 <= b < s.len() && new.len() == s[b].len() ==> t.valid(s.update(b, new)) && t.size(
            s.update(b, new),
        ) == t.size(s),
{
}

/// What was written to a tensor is read from it, and from every view of its
/// buffer, at the view's range.
pub proof fn views_see_writes<T>(
    t: DeviceTensor,
    v: DeviceTensor,
    s: Seq<BufferView<T>>,
    src: Seq<T>,
)
    requires
        t.valid(s),
        v.valid(s),
        !t.is_view(),
        v.buffer_index() == t.buffer_index(),
        t.place(s) is None,
        t.write_refusal(s, src.len()) is None,
    ensures
        t.values(s.update(t.buffer_index(), BufferView::Host(src))) == Some(src),
        v.values(s.update(t.buffer_index(), BufferView::Host(src))) == Some(
            src.subrange(v.start(), v.start() + v.size(s)),
        ),
{
    let after = s.update(t.buffer_index(), BufferView::Host(src));
    handles_stay_valid(t, s, t.buffer_index(), BufferView::Host(src));
    handles_stay_valid(v, s, t.buffer_index(), BufferView::Host(src));
    assert(src.subrange(0, src.len() as int) =~= src);
}

/// A write leaves the tensors of all other buffers as they are.
pub proof fn writes_stay_in_their_buffer<T>(
    t: DeviceTensor,
    other: DeviceTensor,
    s: Seq<BufferView<T>>,
    src: Seq<T>,
)
    requires
        t.valid(s),
        other.valid(s),
        other.buffer_index() != t.buffer_index(),
        t.write_refusal(s, src.len()) is None,
    ensures
        other.values(s.update(t.buffer_index(), BufferView::Host(src))) == other.values(s),
{
    handles_stay_valid(other, s, t.buffer_index(), BufferView::Host(src));
}

} // verus!
