//! Accumulation of named typed arrays into one aligned binary blob, with
//! buffer-view and accessor metadata describing each array.

use vstd::prelude::*;

verus! {

/// Component type code for 32-bit floats in the output scene description.
pub const COMPONENT_TYPE_FLOAT: u32 = 5126;

/// Component type code for unsigned 16-bit integers in the output scene
/// description.
pub const COMPONENT_TYPE_UNSIGNED_SHORT: u32 = 5123;

/// A contiguous byte range of the blob.
#[derive(Clone, Copy, Debug, PartialEq, Eq, Structural)]
pub struct BufferView {
    pub byte_offset: usize,
    pub byte_length: usize,
}

/// A typed, bounded array described over one buffer view. `min` and `max`
/// hold one 32-bit pattern per component of an element.
#[derive(Clone, Debug)]
pub struct Accessor {
    pub name: String,
    pub buffer_view: usize,
    pub component_type: u32,
    pub count: usize,
    pub element_arity: usize,
    pub min: Vec<u32>,
    pub max: Vec<u32>,
}

/// The blob's external-file descriptor.
#[derive(Clone, Debug)]
pub struct BufferDescriptor {
    pub byte_length: usize,
    pub uri: String,
}

/// Mathematical model of an accessor.
#[verifier::ext_equal]
pub struct AccessorModel {
    pub name: Seq<char>,
    pub buffer_view: int,
    pub component_type: u32,
    pub count: int,
    pub element_arity: int,
    pub min: Seq<u32>,
    pub max: Seq<u32>,
}

impl View for Accessor {
    type V = AccessorModel;

    open spec fn view(&self) -> AccessorModel {
        AccessorModel {
            name: self.name@,
            buffer_view: self.buffer_view as int,
            component_type: self.component_type,
            count: self.count as int,
            element_arity: self.element_arity as int,
            min: self.min@,
            max: self.max@,
        }
    }
}

/// Mathematical model of a builder: the blob's bytes and the two metadata
/// lists.
#[verifier::ext_equal]
pub struct BuilderModel {
    pub data: Seq<u8>,
    pub views: Seq<BufferView>,
    pub accessors: Seq<AccessorModel>,
}

/// The models of a list of accessors.
pub open spec fn accessor_views(v: Seq<Accessor>) -> Seq<AccessorModel> {
    Seq::new(v.len(), |i: int| v[i]@)
}

/// The views of a list of element vectors.
pub open spec fn views_of(v: Seq<Vec<u32>>) -> Seq<Seq<u32>> {
    Seq::new(v.len(), |i: int| v[i]@)
}

/// The next 4-byte-aligned offset at or after `n`.
pub open spec fn align4(n: int) -> int {
    n + ((4 - n % 4) % 4)
}

/// `n` zero bytes.
pub open spec fn zero_bytes(n: int) -> Seq<u8> {
    Seq::new(n as nat, |i: int| 0u8)
}

/// The little-endian bytes of one element's components.
pub open spec fn element_bytes(e: Seq<u32>) -> Seq<u8>
    decreases e.len(),
{
    if e.len() == 0 {
        Seq::empty()
    } else {
        element_bytes(e.drop_last()) + vstd::bytes::spec_u32_to_le_bytes(e.last())
    }
}

/// The little-endian bytes of a whole element list, in order.
pub open spec fn array_bytes(es: Seq<Seq<u32>>) -> Seq<u8>
    decreases es.len(),
{
    if es.len() == 0 {
        Seq::empty()
    } else {
        array_bytes(es.drop_last()) + element_bytes(es.last())
    }
}

/// The little-endian bytes of a flat 16-bit value list, in order.
pub open spec fn scalar_bytes(vs: Seq<u16>) -> Seq<u8>
    decreases vs.len(),
{
    if vs.len() == 0 {
        Seq::empty()
    } else {
        scalar_bytes(vs.drop_last()) + vstd::bytes::spec_u16_to_le_bytes(vs.last())
    }
}

pub proof fn lemma_element_bytes_len(e: Seq<u32>)
    ensures
        element_bytes(e).len() == 4 * e.len(),
    decreases e.len(),
{
    vstd::bytes::lemma_auto_spec_u32_to_from_le_bytes();
    if e.len() != 0 {
        lemma_element_bytes_len(e.drop_last());
    }
}

pub proof fn lemma_array_bytes_len(es: Seq<Seq<u32>>, k: int)
    requires
        forall|i: int| 0 <= i < es.len() ==> #[trigger] es[i].len() == k,
    ensures
        array_bytes(es).len() == 4 * k * es.len(),
    decreases es.len(),
{
    if es.len() != 0 {
        lemma_element_bytes_len(es.last());
        assert(es[es.len() - 1].len() == k);
        assert forall|i: int| 0 <= i < es.drop_last().len() implies (#[trigger] es.drop_last()[
            i
        ].len()) == k by {
            assert(es[i].len() == k);
        }
        lemma_array_bytes_len(es.drop_last(), k);
        assert(4 * k * (es.len() - 1) + 4 * k == 4 * k * es.len()) by (nonlinear_arith);
    }
}

pub proof fn lemma_scalar_bytes_len(vs: Seq<u16>)
    ensures
        scalar_bytes(vs).len() == 2 * vs.len(),
    decreases vs.len(),
{
    vstd::bytes::lemma_auto_spec_u16_to_from_le_bytes();
    if vs.len() != 0 {
        lemma_scalar_bytes_len(vs.drop_last());
    }
}

/// Key whose unsigned order ranks 32-bit patterns as the IEEE-754 total
/// order ranks the floats they encode: for finite values this coincides with
/// numeric order.
pub open spec fn spec_total_order_key(x: u32) -> u32 {
    if x >= 0x8000_0000 {
        !x
    } else {
        (x + 0x8000_0000) as u32
    }
}

/// `a` is at or below `b` in the IEEE-754 total order on 32-bit patterns.
pub open spec fn bits_le(a: u32, b: u32) -> bool {
    spec_total_order_key(a) <= spec_total_order_key(b)
}

/// The least pattern of `s` under the total order, keeping the earliest on
/// ties.
pub open spec fn bits_min(s: Seq<u32>) -> u32
    recommends
        s.len() > 0,
    decreases s.len(),
{
    if s.len() <= 1 {
        s[0]
    } else {
        let m = bits_min(s.drop_last());
        if bits_le(m, s.last()) {
            m
        } else {
            s.last()
        }
    }
}

/// The greatest pattern of `s` under the total order, keeping the earliest
/// on ties.
pub open spec fn bits_max(s: Seq<u32>) -> u32
    recommends
        s.len() > 0,
    decreases s.len(),
{
    if s.len() <= 1 {
        s[0]
    } else {
        let m = bits_max(s.drop_last());
        if bits_le(s.last(), m) {
            m
        } else {
            s.last()
        }
    }
}

/// Component `j` of every element, as one column.
pub open spec fn column(es: Seq<Seq<u32>>, j: int) -> Seq<u32> {
    Seq::new(es.len(), |i: int| es[i][j])
}

/// An accessor index as a mathematical option.
pub open spec fn opt_index(r: Option<usize>) -> Option<int> {
    match r {
        Some(i) => Some(i as int),
        None => None,
    }
}

/// What `add_array` does to a builder's model, and the accessor index it
/// yields.
pub open spec fn spec_add_array(m: BuilderModel, name: Seq<char>, es: Seq<Seq<u32>>) -> (
    BuilderModel,
    Option<int>,
) {
    if es.len() == 0 {
        (m, None)
    } else {
        let k = es[0].len() as int;
        let base = m.data.len() as int;
        (
            BuilderModel {
                data: m.data + zero_bytes(align4(base) - base) + array_bytes(es),
                views: m.views.push(
                    BufferView {
                        byte_offset: align4(base) as usize,
                        byte_length: (4 * k * es.len()) as usize,
                    },
                ),
                accessors: m.accessors.push(
                    AccessorModel {
                        name,
                        buffer_view: m.views.len() as int,
                        component_type: COMPONENT_TYPE_FLOAT,
                        count: es.len() as int,
                        element_arity: k,
                        min: Seq::new(k as nat, |j: int| bits_min(column(es, j))),
                        max: Seq::new(k as nat, |j: int| bits_max(column(es, j))),
                    },
                ),
            },
            Some(m.accessors.len() as int),
        )
    }
}

/// What `add_scalar` does to a builder's model, and the accessor index it
/// yields.
pub open spec fn spec_add_scalar(m: BuilderModel, name: Seq<char>, vs: Seq<u16>) -> (
    BuilderModel,
    Option<int>,
) {
    if vs.len() == 0 {
        (m, None)
    } else {
        let base = m.data.len() as int;
        (
            BuilderModel {
                data: m.data + zero_bytes(align4(base) - base) + scalar_bytes(vs),
                views: m.views.push(
                    BufferView {
                        byte_offset: align4(base) as usize,
                        byte_length: (2 * vs.len()) as usize,
                    },
                ),
                accessors: m.accessors.push(
                    AccessorModel {
                        name,
                        buffer_view: m.views.len() as int,
                        component_type: COMPONENT_TYPE_UNSIGNED_SHORT,
                        count: vs.len() as int,
                        element_arity: 1,
                        min: Seq::<u32>::empty(),
                        max: Seq::<u32>::empty(),
                    },
                ),
            },
            Some(m.accessors.len() as int),
        )
    }
}

fn total_order_key(x: u32) -> (r: u32)
    ensures
        r == spec_total_order_key(x),
{
    if x >= 0x8000_0000 {
        !x
    } else {
        x + 0x8000_0000
    }
}

/// Accumulates named typed arrays into one append-only binary blob, with a
/// buffer view and an accessor recorded per non-empty array. Mutation goes
/// through `add_array` and `add_scalar` alone.
pub struct AccessorBuilder {
    data: Vec<u8>,
    views: Vec<BufferView>,
    accessors: Vec<Accessor>,
}

impl View for AccessorBuilder {
    type V = BuilderModel;

    closed spec fn view(&self) -> BuilderModel {
        BuilderModel {
            data: self.data@,
            views: self.views@,
            accessors: accessor_views(self.accessors@),
        }
    }
}

impl AccessorBuilder {
    pub fn new() -> (r: Self)
        ensures
            r@.data == Seq::<u8>::empty(),
            r@.views == Seq::<BufferView>::empty(),
            r@.accessors == Seq::<AccessorModel>::empty(),
    {
        let r = AccessorBuilder { data: Vec::new(), views: Vec::new(), accessors: Vec::new() };
        proof {
            assert(r@.accessors =~= Seq::<AccessorModel>::empty());
        }
        r
    }

    /// Pads the blob to the next 4-byte-aligned offset with zero bytes.
    fn pad_to_alignment(&mut self)
        ensures
            final(self)@.data == old(self)@.data + zero_bytes(
                align4(old(self)@.data.len() as int) - old(self)@.data.len(),
            ),
            final(self)@.data.len() == align4(old(self)@.data.len() as int),
            final(self)@.views == old(self)@.views,
            final(self)@.accessors == old(self)@.accessors,
    {
        let ghost base = self@.data;
        let rem = self.data.len() % 4;
        if rem != 0 {
            let pad = 4 - rem;
            let mut c: usize = 0;
            while c < pad
                invariant
                    c <= pad,
                    pad == 4 - (base.len() as int % 4),
                    self@.data == base + zero_bytes(c as int),
                    self@.views == old(self)@.views,
                    self@.accessors == old(self)@.accessors,
                decreases pad - c,
            {
                proof {
                    assert(base + zero_bytes(c as int + 1) =~= (base + zero_bytes(c as int)).push(
                        0u8,
                    ));
                }
                self.data.push(0u8);
                c += 1;
            }
        } else {
            proof {
                assert(base + zero_bytes(0) =~= base);
            }
        }
    }

    /// Appends a named array of fixed-arity elements: pads the blob to
    /// 4-byte alignment, appends every component as little-endian bytes, and
    /// records a view over the appended range and an accessor with
    /// per-component minimum and maximum. An empty input changes nothing and
    /// yields no reference; otherwise the new accessor's index is returned.
    pub fn add_array(&mut self, name: String, elements: &Vec<Vec<u32>>) -> (r: Option<usize>)
        requires
            forall|i: int|
                0 <= i < elements@.len() ==> (#[trigger] elements@[i]@.len())
                    == elements@[0]@.len(),
        ensures
            ({
                let es = views_of(elements@);
                let k = if es.len() == 0 {
                    0int
                } else {
                    es[0].len() as int
                };
                let base = old(self)@.data.len() as int;
                if es.len() == 0 {
                    &&& r is None
                    &&& *final(self) == *old(self)
                } else {
                    &&& r == Some(old(self)@.accessors.len() as usize)
                    &&& final(self)@.data == old(self)@.data + zero_bytes(align4(base) - base)
                        + array_bytes(es)
                    &&& final(self)@.views == old(self)@.views.push(
                        BufferView {
                            byte_offset: align4(base) as usize,
                            byte_length: (4 * k * es.len()) as usize,
                        },
                    )
                    &&& final(self)@.accessors == old(self)@.accessors.push(
                        AccessorModel {
                            name: name@,
                            buffer_view: old(self)@.views.len() as int,
                            component_type: COMPONENT_TYPE_FLOAT,
                            count: es.len() as int,
                            element_arity: k,
                            min: Seq::new(k as nat, |j: int| bits_min(column(es, j))),
                            max: Seq::new(k as nat, |j: int| bits_max(column(es, j))),
                        },
                    )
                }
            }),
            (final(self)@, opt_index(r)) == spec_add_array(
                old(self)@,
                name@,
                views_of(elements@),
            ),
    {
        let ghost es = views_of(elements@);
        let count = elements.len();
        if count == 0 {
            return None;
        }
        let k = elements[0].len();
        let ghost old_model = self@;

        self.pad_to_alignment();
        let byte_offset = self.data.len();
        let ghost padded = self@.data;

        // Append every element's components as little-endian bytes.
        proof {
            assert(es.take(0) =~= Seq::<Seq<u32>>::empty());
            assert(padded + array_bytes(es.take(0)) =~= padded);
        }
        let mut i: usize = 0;
        while i < count
            invariant
                i <= count,
                count == es.len(),
                es == views_of(elements@),
                forall|t: int| 0 <= t < es.len() ==> #[trigger] es[t].len() == k as int,
                self@.data == padded + array_bytes(es.take(i as int)),
                self@.views == old_model.views,
                self@.accessors == old_model.accessors,
            decreases count - i,
        {
            let e = &elements[i];
            let ghost ev = e@;
            proof {
                assert(es[i as int] == elements@[i as int]@);
                assert(es[i as int].len() == k as int);
                assert(ev.take(0) =~= Seq::<u32>::empty());
                assert(padded + array_bytes(es.take(i as int)) + element_bytes(ev.take(0)) =~=
                    padded + array_bytes(es.take(i as int)));
            }
            let mut j: usize = 0;
            while j < k
                invariant
                    j <= k,
                    ev.len() == k,
                    ev == e@,
                    ev == elements@[i as int]@,
                    i < count,
                    count == es.len(),
                    es == views_of(elements@),
                    self@.data == padded + array_bytes(es.take(i as int)) + element_bytes(
                        ev.take(j as int),
                    ),
                    self@.views == old_model.views,
                    self@.accessors == old_model.accessors,
                decreases k - j,
            {
                let mut b = vstd::bytes::u32_to_le_bytes(e[j]);
                proof {
                    assert(ev.take(j as int + 1).drop_last() =~= ev.take(j as int));
                    assert(ev.take(j as int + 1).last() == ev[j as int]);
                    assert(padded + array_bytes(es.take(i as int)) + element_bytes(
                        ev.take(j as int + 1),
                    ) =~= (padded + array_bytes(es.take(i as int)) + element_bytes(
                        ev.take(j as int),
                    )) + vstd::bytes::spec_u32_to_le_bytes(ev[j as int]));
                }
                self.data.append(&mut b);
                j += 1;
            }
            proof {
                assert(ev.take(k as int) =~= ev);
                assert(es[i as int] == ev);
                assert(es.take(i as int + 1).drop_last() =~= es.take(i as int));
                assert(es.take(i as int + 1).last() == es[i as int]);
                assert(padded + array_bytes(es.take(i as int)) + element_bytes(ev) =~= padded
                    + array_bytes(es.take(i as int + 1)));
            }
            i += 1;
        }
        proof {
            assert(es.take(count as int) =~= es);
            lemma_array_bytes_len(es, k as int);
        }
        let byte_length = self.data.len() - byte_offset;

        // Per-component bounds under the total order on 32-bit patterns.
        let mut mins: Vec<u32> = Vec::new();
        let mut maxs: Vec<u32> = Vec::new();
        let mut j: usize = 0;
        while j < k
            invariant
                j <= k,
                count == es.len(),
                count > 0,
                es == views_of(elements@),
                forall|t: int| 0 <= t < es.len() ==> #[trigger] es[t].len() == k as int,
                mins@.len() == j,
                maxs@.len() == j,
                forall|t: int| 0 <= t < j ==> mins@[t] == bits_min(column(es, t)),
                forall|t: int| 0 <= t < j ==> maxs@[t] == bits_max(column(es, t)),
            decreases k - j,
        {
            let ghost col = column(es, j as int);
            proof {
                assert(es[0].len() == k as int);
                assert(es[0] == elements@[0]@);
            }
            let mut lo = elements[0][j];
            let mut hi = elements[0][j];
            let mut i: usize = 1;
            proof {
                assert(col.take(1)[0] == es[0][j as int]);
            }
            while i < count
                invariant
                    1 <= i <= count,
                    count == es.len(),
                    j < k,
                    es == views_of(elements@),
                    forall|t: int| 0 <= t < es.len() ==> #[trigger] es[t].len() == k as int,
                    col == column(es, j as int),
                    lo == bits_min(col.take(i as int)),
                    hi == bits_max(col.take(i as int)),
                decreases count - i,
            {
                proof {
                    assert(es[i as int].len() == k as int);
                    assert(es[i as int] == elements@[i as int]@);
                }
                let x = elements[i][j];
                proof {
                    assert(col.take(i as int + 1).drop_last() =~= col.take(i as int));
                    assert(col.take(i as int + 1).last() == es[i as int][j as int]);
                }
                if total_order_key(x) < total_order_key(lo) {
                    lo = x;
                }
                if total_order_key(x) > total_order_key(hi) {
                    hi = x;
                }
                i += 1;
            }
            proof {
                assert(col.take(count as int) =~= col);
            }
            mins.push(lo);
            maxs.push(hi);
            j += 1;
        }
        proof {
            assert(mins@ =~= Seq::new(k as nat, |t: int| bits_min(column(es, t))));
            assert(maxs@ =~= Seq::new(k as nat, |t: int| bits_max(column(es, t))));
        }

        let accessor_index = self.accessors.len();
        let view_index = self.views.len();
        self.views.push(BufferView { byte_offset, byte_length });
        self.accessors.push(
            Accessor {
                name,
                buffer_view: view_index,
                component_type: COMPONENT_TYPE_FLOAT,
                count,
                element_arity: k,
                min: mins,
                max: maxs,
            },
        );
        proof {
            assert(self@.accessors =~~= old_model.accessors.push(
                AccessorModel {
                    name: name@,
                    buffer_view: old_model.views.len() as int,
                    component_type: COMPONENT_TYPE_FLOAT,
                    count: es.len() as int,
                    element_arity: k as int,
                    min: Seq::new(k as nat, |t: int| bits_min(column(es, t))),
                    max: Seq::new(k as nat, |t: int| bits_max(column(es, t))),
                },
            ));
            assert(self@ =~~= spec_add_array(old_model, name@, es).0);
        }
        Some(accessor_index)
    }

    /// Appends a named flat array of 16-bit values: pads the blob to 4-byte
    /// alignment, appends the values as little-endian bytes, and records a
    /// view and a scalar accessor without per-component bounds. An empty
    /// input changes nothing and yields no reference.
    pub fn add_scalar(&mut self, name: String, values: Vec<u16>) -> (r: Option<usize>)
        ensures
            ({
                let base = old(self)@.data.len() as int;
                if values@.len() == 0 {
                    &&& r is None
                    &&& *final(self) == *old(self)
                } else {
                    &&& r == Some(old(self)@.accessors.len() as usize)
                    &&& final(self)@.data == old(self)@.data + zero_bytes(align4(base) - base)
                        + scalar_bytes(values@)
                    &&& final(self)@.views == old(self)@.views.push(
                        BufferView {
                            byte_offset: align4(base) as usize,
                            byte_length: (2 * values@.len()) as usize,
                        },
                    )
                    &&& final(self)@.accessors == old(self)@.accessors.push(
                        AccessorModel {
                            name: name@,
                            buffer_view: old(self)@.views.len() as int,
                            component_type: COMPONENT_TYPE_UNSIGNED_SHORT,
                            count: values@.len() as int,
                            element_arity: 1,
                            min: Seq::<u32>::empty(),
                            max: Seq::<u32>::empty(),
                        },
                    )
                }
            }),
            (final(self)@, opt_index(r)) == spec_add_scalar(old(self)@, name@, values@),
    {
        let ghost vs = values@;
        let count = values.len();
        if count == 0 {
            return None;
        }
        let ghost old_model = self@;

        self.pad_to_alignment();
        let byte_offset = self.data.len();
        let ghost padded = self@.data;

        proof {
            assert(vs.take(0) =~= Seq::<u16>::empty());
            assert(padded + scalar_bytes(vs.take(0)) =~= padded);
        }
        let mut i: usize = 0;
        while i < count
            invariant
                i <= count,
                count == vs.len(),
                vs == values@,
                self@.data == padded + scalar_bytes(vs.take(i as int)),
                self@.views == old_model.views,
                self@.accessors == old_model.accessors,
            decreases count - i,
        {
            let mut b = vstd::bytes::u16_to_le_bytes(values[i]);
            proof {
                assert(vs.take(i as int + 1).drop_last() =~= vs.take(i as int));
                assert(vs.take(i as int + 1).last() == vs[i as int]);
                assert(padded + scalar_bytes(vs.take(i as int + 1)) =~= (padded + scalar_bytes(
                    vs.take(i as int),
                )) + vstd::bytes::spec_u16_to_le_bytes(vs[i as int]));
            }
            self.data.append(&mut b);
            i += 1;
        }
        proof {
            assert(vs.take(count as int) =~= vs);
            lemma_scalar_bytes_len(vs);
        }
        let byte_length = self.data.len() - byte_offset;

        let accessor_index = self.accessors.len();
        let view_index = self.views.len();
        self.views.push(BufferView { byte_offset, byte_length });
        self.accessors.push(
            Accessor {
                name,
                buffer_view: view_index,
                component_type: COMPONENT_TYPE_UNSIGNED_SHORT,
                count,
                element_arity: 1,
                min: Vec::new(),
                max: Vec::new(),
            },
        );
        proof {
            assert(self@.accessors =~~= old_model.accessors.push(
                AccessorModel {
                    name: name@,
                    buffer_view: old_model.views.len() as int,
                    component_type: COMPONENT_TYPE_UNSIGNED_SHORT,
                    count: vs.len() as int,
                    element_arity: 1,
                    min: Seq::<u32>::empty(),
                    max: Seq::<u32>::empty(),
                },
            ));
            assert(self@ =~~= spec_add_scalar(old_model, name@, vs).0);
        }
        Some(accessor_index)
    }

    /// Finalizes the builder: the accessor list, the view list, one buffer
    /// descriptor naming the external file, and the blob's bytes verbatim.
    pub fn generate(self, buffer_name: &str) -> (r: (
        Vec<Accessor>,
        Vec<BufferView>,
        BufferDescriptor,
        Vec<u8>,
    ))
        ensures
            accessor_views(r.0@) == self@.accessors,
            r.1@ == self@.views,
            r.2.byte_length == self@.data.len(),
            r.2.uri@ == buffer_name@,
            r.3@ == self@.data,
    {
        let byte_length = self.data.len();
        let descriptor = BufferDescriptor { byte_length, uri: buffer_name.to_owned() };
        (self.accessors, self.views, descriptor, self.data)
    }
}

} // verus!
