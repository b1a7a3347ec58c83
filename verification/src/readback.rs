//! Reading back what a written container declares: the sizes in the
//! directory of a Windows icon file, and the icons among the elements of a
//! macOS icon file.

use crate::codec::{be32, icns_body, icns_file, icns_pixel_size, icns_tag, ico_layout};
use crate::container::{
    declared_sizes, icns_declared, icns_fits, lemma_body_concat, lemma_declared_concat,
};
use vstd::prelude::*;
use vstd::slice::slice_subrange;

verus! {

/// The dimension that a byte of the directory stands for: zero means 256.
pub open spec fn ico_dimension(byte: u8) -> u32 {
    if byte == 0 {
        256
    } else {
        byte as u32
    }
}

/// The number of entries that the header of an icon file announces.
pub open spec fn ico_count(file: Seq<u8>) -> int {
    file[4] + 256 * file[5]
}

/// The file starts with a sound directory: reserved words zero, kind icon or
/// cursor, and room for as many entries as the header announces.
pub open spec fn ico_directory_sound(file: Seq<u8>) -> bool {
    &&& file.len() >= 6
    &&& file[0] == 0
    &&& file[1] == 0
    &&& (file[2] == 1 || file[2] == 2)
    &&& file[3] == 0
    &&& file.len() >= 6 + 16 * ico_count(file)
    &&& forall|i: int| 0 <= i < ico_count(file) ==> #[trigger] file[6 + 16 * i + 3] == 0
}

/// The width and height that each entry of an icon file declares, in the
/// order of the directory; `None` if the directory is not sound.
pub open spec fn ico_declared(file: Seq<u8>) -> Option<Seq<(u32, u32)>> {
    if ico_directory_sound(file) {
        Some(
            Seq::new(
                ico_count(file) as nat,
                |i: int| (ico_dimension(file[6 + 16 * i]), ico_dimension(file[6 + 16 * i + 1])),
            ),
        )
    } else {
        None
    }
}

/// Reading back the directory of a written icon file gives the declared
/// sizes of the entries that went in, in the same order and number, as long
/// as no side exceeds 256, the largest that a directory can name.
pub proof fn lemma_ico_round_trip(file: Seq<u8>, entries: Seq<(u32, u32, Seq<u8>)>)
    requires
        ico_layout(file, false, entries),
        entries.len() <= 0xFFFF,
        forall|i: int|
            0 <= i < entries.len() ==> 1 <= (#[trigger] entries[i]).0 <= 256 && 1 <= entries[i].1
                <= 256,
    ensures
        ico_declared(file) == Some(declared_sizes(entries)),
{
    let n = entries.len() as int;
    assert(ico_count(file) == n);
    assert forall|i: int| 0 <= i < ico_count(file) implies #[trigger] file[6 + 16 * i + 3]
        == 0 by {
        let e = entries[i];
    }
    assert(ico_directory_sound(file));
    let read = ico_declared(file)->0;
    assert forall|i: int| 0 <= i < n implies read[i] == declared_sizes(entries)[i] by {
        let e = entries[i];
    }
    assert(read =~= declared_sizes(entries));
}

/// Reads the directory of an icon file: the width and height that each entry
/// declares.
pub fn read_ico_sizes(file: &[u8]) -> (r: Option<Vec<(u32, u32)>>)
    ensures
        match r {
            Some(sizes) => ico_declared(file@) == Some(sizes@),
            None => ico_declared(file@) is None,
        },
{
    if file.len() < 6 {
        return None;
    }
    if file[0] != 0 || file[1] != 0 || (file[2] != 1 && file[2] != 2) || file[3] != 0 {
        return None;
    }
    let count: usize = file[4] as usize + 256 * (file[5] as usize);
    if (file.len() - 6) / 16 < count {
        return None;
    }
    let mut sizes: Vec<(u32, u32)> = Vec::new();
    let mut i: usize = 0;
    while i < count
        invariant
            i <= count,
            count == ico_count(file@),
            file@.len() >= 6 + 16 * count,
            sizes@.len() == i,
            forall|j: int| 0 <= j < i ==> #[trigger] file@[6 + 16 * j + 3] == 0,
            forall|j: int|
                0 <= j < i ==> sizes@[j] == (
                    ico_dimension(file@[6 + 16 * j]),
                    ico_dimension(file@[6 + 16 * j + 1]),
                ),
        decreases count - i,
    {
        let at: usize = 6 + 16 * i;
        if file[at + 3] != 0 {
            return None;
        }
        let width: u32 = if file[at] == 0 {
            256
        } else {
            file[at] as u32
        };
        let height: u32 = if file[at + 1] == 0 {
            256
        } else {
            file[at + 1] as u32
        };
        sizes.push((width, height));
        i = i + 1;
    }
    proof {
        assert(ico_directory_sound(file@));
        assert(sizes@ =~= ico_declared(file@)->0);
    }
    Some(sizes)
}

/// The number that four bytes stand for, the highest first.
pub open spec fn be32_value(bytes: Seq<u8>) -> int {
    bytes[0] * 0x100_0000 + bytes[1] * 0x1_0000 + bytes[2] * 0x100 + bytes[3]
}

/// The icons among the elements that start at `at` and fill the file to its
/// end; `None` if the elements do not fit the file exactly.
pub open spec fn icns_listed_from(file: Seq<u8>, at: int) -> Option<Seq<(u32, u32)>>
    decreases file.len() - at,
{
    if at == file.len() {
        Some(Seq::<(u32, u32)>::empty())
    } else if at < 0 || at + 8 > file.len() {
        None
    } else {
        let length = be32_value(file.subrange(at + 4, at + 8));
        if length < 8 || at + length > file.len() {
            None
        } else {
            match icns_listed_from(file, at + length) {
                None => None,
                Some(rest) => Some(
                    match icns_pixel_size(file.subrange(at, at + 4)) {
                        Some(size) => seq![size] + rest,
                        None => rest,
                    },
                ),
            }
        }
    }
}

/// The pixel sizes of the icons that an icon file holds, in the order of its
/// elements, masks passed over; `None` if the file does not start with the
/// magic word and its own length, or its elements do not fill it exactly.
pub open spec fn icns_listed(file: Seq<u8>) -> Option<Seq<(u32, u32)>> {
    if file.len() >= 8 && file.subrange(0, 4) == icns_tag('i', 'c', 'n', 's') && be32_value(
        file.subrange(4, 8),
    ) == file.len() {
        icns_listed_from(file, 8)
    } else {
        None
    }
}

/// Four bytes written for a number stand for that number.
pub proof fn lemma_be32_value(n: nat)
    ensures
        be32(n).len() == 4,
        n <= 0xFFFF_FFFF ==> be32_value(be32(n)) == n,
{
}

/// The middle of three sequences joined together is found at its place.
proof fn lemma_middle(before: Seq<u8>, middle: Seq<u8>, after: Seq<u8>)
    ensures
        (before + middle + after).subrange(
            before.len() as int,
            (before.len() + middle.len()) as int,
        ) == middle,
{
    assert((before + middle + after).subrange(
        before.len() as int,
        (before.len() + middle.len()) as int,
    ) =~= middle);
}

/// Where element `k` stands in a written file: its type at the end of the
/// elements before it, then its length, then its data.
proof fn lemma_element_place(elements: Seq<(Seq<u8>, Seq<u8>)>, k: int)
    requires
        icns_fits(elements),
        0 <= k < elements.len(),
    ensures
        ({
            let file = icns_file(elements);
            let at = 8 + icns_body(elements.subrange(0, k)).len() as int;
            let this = elements[k];
            &&& file.len() == 8 + icns_body(elements).len()
            &&& file.subrange(at, at + 4) == this.0
            &&& file.subrange(at + 4, at + 8) == be32(8 + this.1.len())
            &&& at + 8 + this.1.len() == 8 + icns_body(elements.subrange(0, k + 1)).len()
            &&& at + 8 + this.1.len() <= file.len()
        }),
{
    let n = elements.len() as int;
    let file = icns_file(elements);
    let head = elements.subrange(0, k);
    let this = elements[k];
    let next = elements.subrange(0, k + 1);
    let tail = elements.subrange(k + 1, n);
    lemma_be32_value((8 + icns_body(elements).len()) as nat);
    lemma_be32_value((8 + this.1.len()) as nat);
    assert(next.drop_last() =~= head);
    assert(next.last() == this);
    assert(next + tail =~= elements);
    lemma_body_concat(next, tail);
    let start = icns_tag('i', 'c', 'n', 's') + be32(8 + icns_body(elements).len()) + icns_body(
        head,
    );
    let size = be32(8 + this.1.len());
    assert(icns_body(next) == icns_body(head) + this.0 + size + this.1);
    assert(file =~= start + this.0 + (size + this.1 + icns_body(tail)));
    lemma_middle(start, this.0, size + this.1 + icns_body(tail));
    assert(file =~= (start + this.0) + size + (this.1 + icns_body(tail)));
    lemma_middle(start + this.0, size, this.1 + icns_body(tail));
}

/// The icons of a sequence of elements, told from its first element on.
proof fn lemma_declared_front(elements: Seq<(Seq<u8>, Seq<u8>)>, k: int)
    requires
        0 <= k < elements.len(),
    ensures
        icns_declared(elements.subrange(k, elements.len() as int)) == match icns_pixel_size(
            elements[k].0,
        ) {
            Some(size) => seq![size] + icns_declared(
                elements.subrange(k + 1, elements.len() as int),
            ),
            None => icns_declared(elements.subrange(k + 1, elements.len() as int)),
        },
{
    let n = elements.len() as int;
    let this = elements[k];
    let tail = elements.subrange(k + 1, n);
    let single = seq![this];
    assert(single + tail =~= elements.subrange(k, n));
    lemma_declared_concat(single, tail);
    assert(single.drop_last() =~= Seq::<(Seq<u8>, Seq<u8>)>::empty());
    assert(icns_declared(single.drop_last()) =~= Seq::<(u32, u32)>::empty());
    assert(single.last() == this);
    match icns_pixel_size(this.0) {
        Some(size) => {
            assert(icns_declared(single) =~= seq![size]);
        },
        None => {
            assert(icns_declared(single) =~= Seq::<(u32, u32)>::empty());
            assert(icns_declared(single) + icns_declared(tail) =~= icns_declared(tail));
        },
    }
}

/// From the start of element `k` of a written file, the reader finds the
/// icons of the elements from `k` on.
proof fn lemma_listed_from(elements: Seq<(Seq<u8>, Seq<u8>)>, k: int)
    requires
        icns_fits(elements),
        0 <= k <= elements.len(),
    ensures
        icns_listed_from(
            icns_file(elements),
            8 + icns_body(elements.subrange(0, k)).len() as int,
        ) == Some(icns_declared(elements.subrange(k, elements.len() as int))),
    decreases elements.len() - k,
{
    let n = elements.len() as int;
    let file = icns_file(elements);
    let at = 8 + icns_body(elements.subrange(0, k)).len() as int;
    if k == n {
        assert(elements.subrange(0, k) =~= elements);
        assert(elements.subrange(k, n) =~= Seq::<(Seq<u8>, Seq<u8>)>::empty());
        lemma_be32_value((8 + icns_body(elements).len()) as nat);
        assert(file.len() == at);
    } else {
        lemma_element_place(elements, k);
        lemma_be32_value((8 + elements[k].1.len()) as nat);
        lemma_listed_from(elements, k + 1);
        lemma_declared_front(elements, k);
    }
}

/// Reading back a written icon family gives the pixel sizes of its icons, in
/// the order and number in which its elements hold them.
pub proof fn lemma_icns_round_trip(elements: Seq<(Seq<u8>, Seq<u8>)>)
    requires
        icns_fits(elements),
    ensures
        icns_listed(icns_file(elements)) == Some(icns_declared(elements)),
{
    let file = icns_file(elements);
    lemma_be32_value((8 + icns_body(elements).len()) as nat);
    assert(file.subrange(0, 4) =~= icns_tag('i', 'c', 'n', 's'));
    assert(file.subrange(4, 8) =~= be32(8 + icns_body(elements).len()));
    assert(elements.subrange(0, 0) =~= Seq::<(Seq<u8>, Seq<u8>)>::empty());
    assert(icns_body(elements.subrange(0, 0)).len() == 0);
    assert(elements.subrange(0, elements.len() as int) =~= elements);
    lemma_listed_from(elements, 0);
}

/// Whether four bytes spell the given element type.
fn spells(tag: &[u8], a: char, b: char, c: char, d: char) -> (yes: bool)
    requires
        tag@.len() == 4,
        (a as u32) < 128,
        (b as u32) < 128,
        (c as u32) < 128,
        (d as u32) < 128,
    ensures
        yes == (tag@ == icns_tag(a, b, c, d)),
{
    let yes: bool = tag[0] as u32 == a as u32 && tag[1] as u32 == b as u32 && tag[2] as u32
        == c as u32 && tag[3] as u32 == d as u32;
    proof {
        let want = icns_tag(a, b, c, d);
        if yes {
            assert(tag@ =~= want);
        } else {
            assert(tag@[0] != want[0] || tag@[1] != want[1] || tag@[2] != want[2] || tag@[3]
                != want[3]);
        }
    }
    yes
}

/// `icns_pixel_size`, computed.
pub fn pixel_size_of(tag: &[u8]) -> (size: Option<(u32, u32)>)
    ensures
        size == icns_pixel_size(tag@),
{
    if tag.len() != 4 {
        return None;
    }
    if spells(tag, 'i', 'c', 'm', '4') || spells(tag, 'i', 'c', 'm', '8') {
        Some((16, 12))
    } else if spells(tag, 'i', 'c', 's', '4') || spells(tag, 'i', 'c', 's', '8') || spells(
        tag,
        'i',
        's',
        '3',
        '2',
    ) || spells(tag, 'i', 'c', 'p', '4') || spells(tag, 'i', 'c', '0', '4') {
        Some((16, 16))
    } else if spells(tag, 'i', 'c', 's', 'b') {
        Some((18, 18))
    } else if spells(tag, 's', 'b', '2', '4') {
        Some((24, 24))
    } else if spells(tag, 'I', 'C', 'O', 'N') || spells(tag, 'i', 'c', 'l', '4') || spells(
        tag,
        'i',
        'c',
        'l',
        '8',
    ) || spells(tag, 'i', 'l', '3', '2') || spells(tag, 'i', 'c', 'p', '5') || spells(
        tag,
        'i',
        'c',
        '1',
        '1',
    ) || spells(tag, 'i', 'c', '0', '5') {
        Some((32, 32))
    } else if spells(tag, 'i', 'c', 's', 'B') {
        Some((36, 36))
    } else if spells(tag, 'i', 'c', 'h', '4') || spells(tag, 'i', 'c', 'h', '8') || spells(
        tag,
        'i',
        'h',
        '3',
        '2',
    ) || spells(tag, 'S', 'B', '2', '4') {
        Some((48, 48))
    } else if spells(tag, 'i', 'c', 'p', '6') || spells(tag, 'i', 'c', '1', '2') {
        Some((64, 64))
    } else if spells(tag, 'i', 't', '3', '2') || spells(tag, 'i', 'c', '0', '7') {
        Some((128, 128))
    } else if spells(tag, 'i', 'c', '0', '8') || spells(tag, 'i', 'c', '1', '3') {
        Some((256, 256))
    } else if spells(tag, 'i', 'c', '0', '9') || spells(tag, 'i', 'c', '1', '4') {
        Some((512, 512))
    } else if spells(tag, 'i', 'c', '1', '0') {
        Some((1024, 1024))
    } else {
        None
    }
}

/// The number that the four bytes at `at` stand for.
fn number_at(file: &[u8], at: usize) -> (n: u32)
    requires
        at + 4 <= file@.len(),
    ensures
        n == be32_value(file@.subrange(at as int, at + 4)),
{
    let n: u32 = file[at] as u32 * 0x100_0000 + file[at + 1] as u32 * 0x1_0000 + file[at
        + 2] as u32 * 0x100 + file[at + 3] as u32;
    n
}

/// Reads the elements of an icon file and lists the pixel sizes of the icons
/// among them.
pub fn read_icns_sizes(file: &[u8]) -> (r: Option<Vec<(u32, u32)>>)
    ensures
        match r {
            Some(sizes) => icns_listed(file@) == Some(sizes@),
            None => icns_listed(file@) is None,
        },
{
    if file.len() < 8 {
        return None;
    }
    if !spells(slice_subrange(file, 0, 4), 'i', 'c', 'n', 's') {
        return None;
    }
    if number_at(file, 4) as u64 != file.len() as u64 {
        return None;
    }
    let mut sizes: Vec<(u32, u32)> = Vec::new();
    let mut at: usize = 8;
    proof {
        assert(Seq::<(u32, u32)>::empty() + icns_listed_from(file@, 8)->0 =~= icns_listed_from(
            file@,
            8,
        )->0);
    }
    while at < file.len()
        invariant
            8 <= at <= file@.len(),
            icns_listed(file@) == icns_listed_from(file@, 8),
            icns_listed_from(file@, 8) == match icns_listed_from(file@, at as int) {
                Some(rest) => Some(sizes@ + rest),
                None => None,
            },
        decreases file@.len() - at,
    {
        if file.len() - at < 8 {
            return None;
        }
        let length: usize = number_at(file, at + 4) as usize;
        if length < 8 || length > file.len() - at {
            return None;
        }
        let ghost rest = icns_listed_from(file@, at + length);
        match pixel_size_of(slice_subrange(file, at, at + 4)) {
            Some(size) => {
                proof {
                    if rest is Some {
                        assert(sizes@ + (seq![size] + rest->0) =~= sizes@.push(size) + rest->0);
                    }
                }
                sizes.push(size);
            },
            None => {},
        }
        at = at + length;
    }
    proof {
        assert(sizes@ + Seq::<(u32, u32)>::empty() =~= sizes@);
    }
    Some(sizes)
}

} // verus!
