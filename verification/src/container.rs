//! The two containers: rendered rasters packed into a Windows icon
//! directory or a macOS icon family.

use crate::codec::{
    be32, icns_add, icns_body, icns_data_lengths, icns_elements, icns_encoding, icns_file,
    icns_icon_of, icns_new, icns_pixel_size, icns_write, ico_add, ico_data_len,
    ico_encoding, ico_entries, ico_holds_cursors, ico_layout, ico_new, ico_write, io_error_text,
};
use crate::errors::IconError;
use crate::raster::Raster;
use vstd::prelude::*;
use vstd::slice::slice_to_vec;

verus! {

/// A raster together with the size that its entry is to declare.
#[derive(Debug)]
pub struct IconEntry {
    pub declared: u32,
    pub image: Raster,
}

/// The raster is a square of exactly the declared side, not empty, and
/// small enough for its pixels to be counted in 32 bits.
pub open spec fn consistent(entry: IconEntry) -> bool {
    1 <= entry.declared <= 0xFFFF && entry.image.spec_width() == entry.declared
        && entry.image.spec_height() == entry.declared
}

/// The length of the file that holds the entries: six bytes of header,
/// sixteen for every entry, then the data.
pub open spec fn ico_file_len(entries: Seq<(u32, u32, Seq<u8>)>) -> nat {
    6 + 16 * entries.len() + ico_data_len(entries)
}

/// The file format counts entries in sixteen bits and bytes in thirty-two.
pub open spec fn ico_fits(entries: Seq<(u32, u32, Seq<u8>)>) -> bool {
    entries.len() <= 0xFFFF && ico_file_len(entries) <= 0xFFFF_FFFF
}

/// The directory entry that the encoder makes of a raster.
pub open spec fn packed_entry(entry: IconEntry) -> (u32, u32, Seq<u8>) {
    (
        entry.declared,
        entry.declared,
        ico_encoding(entry.declared, entry.declared, entry.image.bytes())->0,
    )
}

/// The directory entries of the first `n` rasters.
pub open spec fn packed(entries: Seq<IconEntry>, n: int) -> Seq<(u32, u32, Seq<u8>)> {
    Seq::new(n as nat, |i: int| packed_entry(entries[i]))
}

/// The first `n` rasters can be packed: each fits its declared size, the
/// encoder takes each, and the file stays within the format's limits.
pub open spec fn packable(entries: Seq<IconEntry>, n: int) -> bool {
    &&& forall|i: int|
        0 <= i < n ==> consistent(#[trigger] entries[i]) && ico_encoding(
            entries[i].declared,
            entries[i].declared,
            entries[i].image.bytes(),
        ) is Some
    &&& ico_fits(packed(entries, n))
}

/// The width and height that each entry declares.
pub open spec fn declared_sizes(entries: Seq<(u32, u32, Seq<u8>)>) -> Seq<(u32, u32)> {
    Seq::new(entries.len(), |i: int| (entries[i].0, entries[i].1))
}

/// A file only grows with its entries.
pub proof fn lemma_file_len_grows(entries: Seq<(u32, u32, Seq<u8>)>, n: int)
    requires
        0 <= n <= entries.len(),
    ensures
        ico_file_len(entries.subrange(0, n)) <= ico_file_len(entries),
    decreases entries.len() - n,
{
    if n < entries.len() {
        let longer = entries.subrange(0, n + 1);
        assert(longer.drop_last() =~= entries.subrange(0, n));
        lemma_file_len_grows(entries, n + 1);
    } else {
        assert(entries.subrange(0, n) =~= entries);
    }
}

/// What cannot be packed as a prefix cannot be packed as a whole.
pub proof fn lemma_packable_prefix(entries: Seq<IconEntry>, n: int)
    requires
        0 <= n <= entries.len(),
        packable(entries, entries.len() as int),
    ensures
        packable(entries, n),
{
    let whole = packed(entries, entries.len() as int);
    assert(whole.subrange(0, n) =~= packed(entries, n));
    lemma_file_len_grows(whole, n);
}

/// Every entry of a packed container declares the dimensions of the raster
/// that it wraps.
pub proof fn lemma_packed_dimensions(entries: Seq<IconEntry>, i: int)
    requires
        packable(entries, entries.len() as int),
        0 <= i < entries.len(),
    ensures
        packed(entries, entries.len() as int)[i].0 == entries[i].image.spec_width(),
        packed(entries, entries.len() as int)[i].1 == entries[i].image.spec_height(),
{
    assert(consistent(entries[i]));
}

/// An icon directory in the making, with the length of its file.
pub struct WindowsContainer {
    dir: ico::IconDir,
    count: u32,
    file_len: u32,
}

impl WindowsContainer {
    #[verifier::type_invariant]
    spec fn well_formed(self) -> bool {
        &&& !ico_holds_cursors(self.dir)
        &&& ico_fits(ico_entries(self.dir))
        &&& self.count == ico_entries(self.dir).len()
        &&& self.file_len == ico_file_len(ico_entries(self.dir))
    }

    /// The entries, in order: declared width, declared height, encoded data.
    pub closed spec fn entries(&self) -> Seq<(u32, u32, Seq<u8>)> {
        ico_entries(self.dir)
    }

    /// Whether the directory is of the icon kind.
    pub closed spec fn holds_icons(&self) -> bool {
        !ico_holds_cursors(self.dir)
    }

    /// A container without entries.
    pub fn new() -> (c: WindowsContainer)
        ensures
            c.entries() == Seq::<(u32, u32, Seq<u8>)>::empty(),
            c.holds_icons(),
    {
        let dir = ico_new(ico::ResourceType::Icon);
        WindowsContainer { dir, count: 0, file_len: 6 }
    }

    /// The directory itself, for whoever wants to look into the entries.
    pub fn directory(&self) -> (dir: &ico::IconDir)
        ensures
            ico_entries(*dir) == self.entries(),
    {
        &self.dir
    }

    /// Adds one raster as the last entry.
    ///
    /// Fails, and gives the container up, when the raster is not a square of
    /// the declared size, when the encoder refuses it, or when the file would
    /// outgrow the format.
    pub fn with_entry(self, entry: &IconEntry) -> (r: Result<WindowsContainer, IconError>)
        ensures
            match r {
                Ok(c) => {
                    &&& consistent(*entry)
                    &&& ico_encoding(entry.declared, entry.declared, entry.image.bytes()) is Some
                    &&& c.entries() == self.entries().push(packed_entry(*entry))
                    &&& ico_fits(c.entries())
                    &&& c.holds_icons()
                },
                Err(e) => {
                    &&& e is ContainerEncodeFailure
                    &&& !(consistent(*entry) && ico_encoding(
                        entry.declared,
                        entry.declared,
                        entry.image.bytes(),
                    ) is Some && ico_fits(self.entries().push(packed_entry(*entry))))
                },
            },
    {
        proof {
            use_type_invariant(&self);
        }
        let declared: u32 = entry.declared;
        if declared < 1 || declared > 0xFFFF || entry.image.width() != declared
            || entry.image.height() != declared {
            return Err(
                IconError::ContainerEncodeFailure(
                    String::from_str("raster does not have the declared size"),
                ),
            );
        }
        assert(declared * declared <= u32::MAX) by (nonlinear_arith)
            requires
                declared <= 0xFFFF,
        ;
        let WindowsContainer { dir, count, file_len } = self;
        let mut dir = dir;
        let ghost before = ico_entries(dir);
        let pixels: Vec<u8> = slice_to_vec(entry.image.as_bytes().as_slice());
        match ico_add(&mut dir, declared, declared, pixels) {
            Err(error) => Err(IconError::ContainerEncodeFailure(io_error_text(&error))),
            Ok(stored) => {
                let ghost after = ico_entries(dir);
                proof {
                    assert(after.drop_last() =~= before);
                    assert(ico_file_len(after) == ico_file_len(before) + 16 + stored);
                }
                let grown: u128 = file_len as u128 + 16 + stored as u128;
                if count >= 0xFFFF || grown > 0xFFFF_FFFF {
                    return Err(
                        IconError::ContainerEncodeFailure(
                            String::from_str("icon file would exceed the format's limits"),
                        ),
                    );
                }
                Ok(
                    WindowsContainer {
                        dir,
                        count: count + 1,
                        file_len: grown as u32,
                    },
                )
            },
        }
    }

    /// The icon file: the directory, then the entries' data.
    pub fn to_bytes(&self) -> (file: Vec<u8>)
        ensures
            ico_layout(file@, false, self.entries()),
            ico_fits(self.entries()),
    {
        proof {
            use_type_invariant(self);
        }
        match ico_write(&self.dir) {
            Ok(file) => file,
            Err(_) => {
                proof {
                    assert(false);
                }
                Vec::new()
            },
        }
    }
}

/// Packs rendered rasters, in the order given, into a Windows container.
///
/// Succeeds exactly when every raster is a square of its declared size, the
/// encoder takes each of them, and the file stays within the format's
/// limits; the entries then declare the rasters' sizes in the same order.
pub fn pack_ico(entries: &Vec<IconEntry>) -> (r: Result<WindowsContainer, IconError>)
    ensures
        match r {
            Ok(c) => packable(entries@, entries@.len() as int) && c.entries() == packed(
                entries@,
                entries@.len() as int,
            ) && c.holds_icons(),
            Err(e) => !packable(entries@, entries@.len() as int) && e is ContainerEncodeFailure,
        },
{
    let mut container = WindowsContainer::new();
    let mut i: usize = 0;
    proof {
        assert(container.entries() =~= packed(entries@, 0));
    }
    while i < entries.len()
        invariant
            i <= entries@.len(),
            packable(entries@, i as int),
            container.entries() == packed(entries@, i as int),
            container.holds_icons(),
        decreases entries@.len() - i,
    {
        let ghost before = container.entries();
        match container.with_entry(&entries[i]) {
            Err(e) => {
                proof {
                    if packable(entries@, entries@.len() as int) {
                        lemma_packable_prefix(entries@, i + 1);
                        assert(packed(entries@, i + 1) =~= before.push(
                            packed_entry(entries@[i as int]),
                        ));
                        assert(consistent(entries@[i as int]));
                    }
                }
                return Err(e);
            },
            Ok(next) => {
                proof {
                    assert(next.entries() =~= packed(entries@, i + 1));
                }
                container = next;
            },
        }
        i = i + 1;
    }
    Ok(container)
}

/// The length of a family's file stays within the 32 bits that it is
/// counted in, and every element type has its four bytes.
pub open spec fn icns_fits(elements: Seq<(Seq<u8>, Seq<u8>)>) -> bool {
    &&& 8 + icns_body(elements).len() <= 0xFFFF_FFFF
    &&& forall|j: int| 0 <= j < elements.len() ==> (#[trigger] elements[j]).0.len() == 4
}

/// The pixel sizes of the icons that a sequence of elements holds, in
/// order; masks and elements of other kinds are passed over.
pub open spec fn icns_declared(elements: Seq<(Seq<u8>, Seq<u8>)>) -> Seq<(u32, u32)>
    decreases elements.len(),
{
    if elements.len() == 0 {
        Seq::<(u32, u32)>::empty()
    } else {
        let before = icns_declared(elements.drop_last());
        match icns_pixel_size(elements.last().0) {
            Some(size) => before.push(size),
            None => before,
        }
    }
}

/// The elements that the first `n` rasters are encoded to, one icon after
/// the other.
pub open spec fn packed_elements(entries: Seq<IconEntry>, n: int) -> Seq<(Seq<u8>, Seq<u8>)>
    decreases n,
{
    if n <= 0 {
        Seq::<(Seq<u8>, Seq<u8>)>::empty()
    } else {
        packed_elements(entries, n - 1) + icns_encoding(
            entries[n - 1].declared,
            entries[n - 1].image.bytes(),
        )->0
    }
}

/// The first `n` rasters can be packed into a family: each fits its declared
/// size, the encoder takes each, and the file stays within its limit.
pub open spec fn family_packable(entries: Seq<IconEntry>, n: int) -> bool {
    &&& forall|i: int|
        0 <= i < n ==> consistent(#[trigger] entries[i]) && icns_encoding(
            entries[i].declared,
            entries[i].image.bytes(),
        ) is Some
    &&& 8 + icns_body(packed_elements(entries, n)).len() <= 0xFFFF_FFFF
}

/// The declared side of each of the first `n` rasters, as width and height.
pub open spec fn declared_squares(entries: Seq<IconEntry>, n: int) -> Seq<(u32, u32)> {
    Seq::new(n as nat, |i: int| (entries[i].declared, entries[i].declared))
}

/// The elements of two sequences stand in the file one after the other.
pub proof fn lemma_body_concat(a: Seq<(Seq<u8>, Seq<u8>)>, b: Seq<(Seq<u8>, Seq<u8>)>)
    ensures
        icns_body(a + b) == icns_body(a) + icns_body(b),
    decreases b.len(),
{
    if b.len() == 0 {
        assert(a + b =~= a);
        assert(icns_body(a) + icns_body(b) =~= icns_body(a));
    } else {
        assert((a + b).drop_last() =~= a + b.drop_last());
        assert((a + b).last() == b.last());
        lemma_body_concat(a, b.drop_last());
        let last = b.last();
        assert(icns_body(a + b) =~= icns_body(a) + (icns_body(b.drop_last()) + last.0 + be32(
            8 + last.1.len(),
        ) + last.1));
    }
}

/// The icons of two sequences of elements are listed one after the other.
pub proof fn lemma_declared_concat(a: Seq<(Seq<u8>, Seq<u8>)>, b: Seq<(Seq<u8>, Seq<u8>)>)
    ensures
        icns_declared(a + b) == icns_declared(a) + icns_declared(b),
    decreases b.len(),
{
    if b.len() == 0 {
        assert(a + b =~= a);
        assert(icns_declared(a) + icns_declared(b) =~= icns_declared(a));
    } else {
        assert((a + b).drop_last() =~= a + b.drop_last());
        assert((a + b).last() == b.last());
        lemma_declared_concat(a, b.drop_last());
        match icns_pixel_size(b.last().0) {
            Some(size) => {
                assert(icns_declared(a + b) =~= icns_declared(a) + icns_declared(
                    b.drop_last(),
                ).push(size));
            },
            None => {},
        }
    }
}

/// An icon with its mask is listed once, under its side.
pub proof fn lemma_declared_icon(added: Seq<(Seq<u8>, Seq<u8>)>, side: u32)
    requires
        icns_icon_of(added, side),
    ensures
        icns_declared(added) == seq![(side, side)],
{
    let first = added.subrange(0, 1);
    assert(first.drop_last() =~= Seq::<(Seq<u8>, Seq<u8>)>::empty());
    assert(icns_declared(first.drop_last()) =~= Seq::<(u32, u32)>::empty());
    assert(first.last() == added[0]);
    assert(icns_declared(first) =~= seq![(side, side)]);
    if added.len() == 2 {
        assert(added.drop_last() =~= first);
        assert(added.last() == added[1]);
    } else {
        assert(added =~= first);
    }
}

/// The length of the elements in the file: eight bytes of header and the
/// data, for each.
pub proof fn lemma_body_len_step(elements: Seq<(Seq<u8>, Seq<u8>)>, i: int)
    requires
        0 <= i < elements.len(),
        elements[i].0.len() == 4,
    ensures
        icns_body(elements.subrange(0, i + 1)).len() == icns_body(elements.subrange(0, i)).len()
            + 8 + elements[i].1.len(),
{
    let upto = elements.subrange(0, i + 1);
    assert(upto.drop_last() =~= elements.subrange(0, i));
    assert(upto.last() == elements[i]);
}

/// An icon family in the making.
pub struct MacContainer {
    family: icns::IconFamily,
}

impl MacContainer {
    #[verifier::type_invariant]
    spec fn well_formed(self) -> bool {
        icns_fits(icns_elements(self.family))
    }

    /// The elements, in order: type and data.
    pub closed spec fn elements(&self) -> Seq<(Seq<u8>, Seq<u8>)> {
        icns_elements(self.family)
    }

    /// A family without elements.
    pub fn new() -> (c: MacContainer)
        ensures
            c.elements() == Seq::<(Seq<u8>, Seq<u8>)>::empty(),
    {
        let family = icns_new();
        proof {
            assert(icns_body(icns_elements(family)).len() == 0);
        }
        MacContainer { family }
    }

    /// The family itself, for whoever wants to look into the elements.
    pub fn family(&self) -> (family: &icns::IconFamily)
        ensures
            icns_elements(*family) == self.elements(),
    {
        &self.family
    }

    /// Adds one raster as the last icon, with its mask where the icon type
    /// keeps one.
    ///
    /// Fails, and gives the container up, when the raster is not a square of
    /// the declared size, when the encoder refuses it (as it does for a side
    /// that no icon type has), or when the file would outgrow its limit.
    pub fn with_entry(self, entry: &IconEntry) -> (r: Result<MacContainer, IconError>)
        ensures
            match r {
                Ok(c) => {
                    &&& consistent(*entry)
                    &&& icns_encoding(entry.declared, entry.image.bytes()) matches Some(added)
                        && c.elements() == self.elements() + added
                    &&& icns_fits(c.elements())
                    &&& icns_declared(c.elements()) == icns_declared(self.elements()).push(
                        (entry.declared, entry.declared),
                    )
                },
                Err(e) => {
                    &&& e is ContainerEncodeFailure
                    &&& !(consistent(*entry) && icns_encoding(
                        entry.declared,
                        entry.image.bytes(),
                    ) is Some && 8 + icns_body(
                        self.elements() + icns_encoding(entry.declared, entry.image.bytes())->0,
                    ).len() <= 0xFFFF_FFFF)
                },
            },
    {
        proof {
            use_type_invariant(&self);
        }
        let declared: u32 = entry.declared;
        if declared < 1 || declared > 0xFFFF || entry.image.width() != declared
            || entry.image.height() != declared {
            return Err(
                IconError::ContainerEncodeFailure(
                    String::from_str("raster does not have the declared size"),
                ),
            );
        }
        let MacContainer { family } = self;
        let mut family = family;
        let ghost before = icns_elements(family);
        let pixels: Vec<u8> = slice_to_vec(entry.image.as_bytes().as_slice());
        match icns_add(&mut family, icns::PixelFormat::RGBA, declared, pixels) {
            Err(error) => Err(IconError::ContainerEncodeFailure(io_error_text(&error))),
            Ok(_) => {
                let ghost after = icns_elements(family);
                let ghost added = icns_encoding(declared, entry.image.bytes())->0;
                proof {
                    lemma_declared_concat(before, added);
                    lemma_declared_icon(added, declared);
                    assert(icns_declared(before) + seq![(declared, declared)] =~= icns_declared(
                        before,
                    ).push((declared, declared)));
                    assert forall|j: int| 0 <= j < after.len() implies (#[trigger] after[j]).0.len()
                        == 4 by {
                        if j >= before.len() {
                            assert(after[j] == added[j - before.len()]);
                        } else {
                            assert(after[j] == before[j]);
                        }
                    }
                }
                let lengths = icns_data_lengths(&family);
                let mut total: u128 = 8;
                let mut i: usize = 0;
                proof {
                    assert(after.subrange(0, 0) =~= Seq::<(Seq<u8>, Seq<u8>)>::empty());
                }
                while i < lengths.len()
                    invariant
                        i <= lengths@.len(),
                        lengths@.len() == after.len(),
                        after == before + added,
                        before == self.elements(),
                        added == icns_encoding(declared, entry.image.bytes())->0,
                        declared == entry.declared,
                        forall|j: int|
                            0 <= j < lengths@.len() ==> lengths@[j] == (#[trigger] after[j]).1.len(),
                        forall|j: int| 0 <= j < after.len() ==> (#[trigger] after[j]).0.len() == 4,
                        total == 8 + icns_body(after.subrange(0, i as int)).len(),
                        total <= 0xFFFF_FFFF,
                    decreases lengths@.len() - i,
                {
                    proof {
                        lemma_body_len_step(after, i as int);
                    }
                    total = total + 8 + lengths[i] as u128;
                    if total > 0xFFFF_FFFF {
                        proof {
                            let head = after.subrange(0, i + 1);
                            let tail = after.subrange(i + 1, after.len() as int);
                            lemma_body_concat(head, tail);
                            assert(head + tail =~= after);
                            assert(icns_body(after).len() == icns_body(head).len() + icns_body(
                                tail,
                            ).len());
                            assert(after == before + added);
                        }
                        return Err(
                            IconError::ContainerEncodeFailure(
                                String::from_str("icon file would exceed the format's limit"),
                            ),
                        );
                    }
                    i = i + 1;
                }
                proof {
                    assert(after.subrange(0, i as int) =~= after);
                }
                Ok(MacContainer { family })
            },
        }
    }

    /// The icon file: the magic word, the length, the elements.
    pub fn to_bytes(&self) -> (file: Vec<u8>)
        ensures
            file@ == icns_file(self.elements()),
            icns_fits(self.elements()),
    {
        proof {
            use_type_invariant(self);
        }
        match icns_write(&self.family) {
            Ok(file) => file,
            Err(_) => {
                proof {
                    assert(false);
                }
                Vec::new()
            },
        }
    }
}

/// A family's file only grows with its elements.
pub proof fn lemma_family_packable_prefix(entries: Seq<IconEntry>, n: int, m: int)
    requires
        0 <= n <= m,
        family_packable(entries, m),
    ensures
        family_packable(entries, n),
    decreases m - n,
{
    if n < m {
        lemma_body_concat(
            packed_elements(entries, m - 1),
            icns_encoding(entries[m - 1].declared, entries[m - 1].image.bytes())->0,
        );
        assert(family_packable(entries, m - 1));
        lemma_family_packable_prefix(entries, n, m - 1);
    }
}

/// Packs rendered rasters, in the order given, into a macOS container.
///
/// Succeeds exactly when every raster is a square of its declared size, the
/// encoder takes each of them, and the file stays within its limit. The
/// family then lists exactly one icon for each raster, of the raster's size
/// and in the same order.
pub fn pack_icns(entries: &Vec<IconEntry>) -> (r: Result<MacContainer, IconError>)
    ensures
        match r {
            Ok(c) => {
                &&& family_packable(entries@, entries@.len() as int)
                &&& c.elements() == packed_elements(entries@, entries@.len() as int)
                &&& icns_declared(c.elements()) == declared_squares(
                    entries@,
                    entries@.len() as int,
                )
            },
            Err(e) => !family_packable(entries@, entries@.len() as int)
                && e is ContainerEncodeFailure,
        },
{
    let mut container = MacContainer::new();
    let mut i: usize = 0;
    proof {
        assert(icns_declared(container.elements()) =~= declared_squares(entries@, 0));
        assert(icns_body(packed_elements(entries@, 0)).len() == 0);
    }
    while i < entries.len()
        invariant
            i <= entries@.len(),
            family_packable(entries@, i as int),
            container.elements() == packed_elements(entries@, i as int),
            icns_declared(container.elements()) == declared_squares(entries@, i as int),
        decreases entries@.len() - i,
    {
        match container.with_entry(&entries[i]) {
            Err(e) => {
                proof {
                    if family_packable(entries@, entries@.len() as int) {
                        lemma_family_packable_prefix(entries@, i + 1, entries@.len() as int);
                        assert(consistent(entries@[i as int]));
                    }
                }
                return Err(e);
            },
            Ok(next) => {
                proof {
                    assert(icns_declared(next.elements()) =~= declared_squares(entries@, i + 1));
                }
                container = next;
            },
        }
        i = i + 1;
    }
    Ok(container)
}

} // verus!
