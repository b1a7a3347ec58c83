//! Reading the list of devices that adb prints.

use crate::text::{
    contains, holds, lemma_parts_view, lines, lines_of, remove_all, starts_with, to_chars,
    to_text, without, words, words_of,
};
use vstd::prelude::*;

verus! {

/// A device attached to the machine.
#[derive(Clone, Debug)]
pub struct MobileDevice {
    pub id: String,
    pub model: String,
    pub manufacturer: String,
    pub platform: String,
}

/// A device, as the contracts speak of it.
pub struct MobileDeviceModel {
    pub id: Seq<char>,
    pub model: Seq<char>,
    pub manufacturer: Seq<char>,
    pub platform: Seq<char>,
}

impl DeepView for MobileDevice {
    type V = MobileDeviceModel;

    open spec fn deep_view(&self) -> MobileDeviceModel {
        MobileDeviceModel {
            id: self.id@,
            model: self.model@,
            manufacturer: self.manufacturer@,
            platform: self.platform@,
        }
    }
}

/// What the last of the first `n` words that begins with `tag` says after
/// the tag; `fallback` if none begins with it.
pub open spec fn tagged(parts: Seq<Seq<char>>, tag: Seq<char>, n: int, fallback: Seq<char>) -> Seq<
    char,
>
    decreases n,
{
    if n <= 0 {
        fallback
    } else if tag.is_prefix_of(parts[n - 1]) {
        without(parts[n - 1], tag)
    } else {
        tagged(parts, tag, n - 1, fallback)
    }
}

/// The device that a line of the list describes. A line counts if it has at
/// least two words and its first word, the serial number, does not hold
/// `List`, as the heading does. The model and the product are taken from the
/// words `model:...` and `product:...`.
pub open spec fn device_of(line: Seq<char>) -> Option<MobileDeviceModel> {
    let parts = words(line);
    if parts.len() < 2 || holds(parts[0], "List"@) {
        None
    } else {
        Some(
            MobileDeviceModel {
                id: parts[0],
                model: tagged(parts, "model:"@, parts.len() as int, "Unknown"@),
                manufacturer: tagged(parts, "product:"@, parts.len() as int, "Unknown"@),
                platform: "android"@,
            },
        )
    }
}

/// The devices of the first `n` lines; the first line is the heading.
pub open spec fn devices_upto(all: Seq<Seq<char>>, n: int) -> Seq<MobileDeviceModel>
    decreases n,
{
    if n <= 1 {
        Seq::<MobileDeviceModel>::empty()
    } else {
        devices_upto(all, n - 1) + match device_of(all[n - 1]) {
            Some(device) => seq![device],
            None => Seq::<MobileDeviceModel>::empty(),
        }
    }
}

/// `tagged`, computed.
fn read_tag(parts: &Vec<Vec<char>>, tag: &str, fallback: &str) -> (value: String)
    ensures
        value@ == tagged(parts.deep_view(), tag@, parts@.len() as int, fallback@),
{
    let tag_chars = to_chars(tag);
    let mut value = String::from_str(fallback);
    let mut i: usize = 0;
    while i < parts.len()
        invariant
            i <= parts@.len(),
            tag_chars@ == tag@,
            value@ == tagged(parts.deep_view(), tag@, i as int, fallback@),
        decreases parts@.len() - i,
    {
        proof {
            lemma_parts_view(*parts, i as int);
        }
        if starts_with(parts[i].as_slice(), tag_chars.as_slice()) {
            let rest = remove_all(parts[i].as_slice(), tag_chars.as_slice());
            proof {
                assert(rest@.subrange(0, rest@.len() as int) =~= rest@);
            }
            value = to_text(rest.as_slice(), 0, rest.len());
        }
        i = i + 1;
    }
    value
}

/// `device_of`, computed.
fn read_device(line: &Vec<char>) -> (r: Option<MobileDevice>)
    ensures
        match r {
            Some(device) => device_of(line@) == Some(device.deep_view()),
            None => device_of(line@) is None,
        },
{
    let parts = words_of(line.as_slice());
    if parts.len() < 2 {
        proof {
            if parts@.len() > 0 {
                lemma_parts_view(parts, 0);
            }
        }
        return None;
    }
    proof {
        lemma_parts_view(parts, 0);
    }
    let heading = to_chars("List");
    if contains(parts[0].as_slice(), heading.as_slice()) {
        return None;
    }
    let first = &parts[0];
    proof {
        assert(first@.subrange(0, first@.len() as int) =~= first@);
    }
    Some(
        MobileDevice {
            id: to_text(first.as_slice(), 0, first.len()),
            model: read_tag(&parts, "model:", "Unknown"),
            manufacturer: read_tag(&parts, "product:", "Unknown"),
            platform: String::from_str("android"),
        },
    )
}

/// Reads the output of `adb devices -l`: one device for every line after the
/// heading that describes one, in the order of the lines.
pub fn get_devices(output: &str) -> (devices: Vec<MobileDevice>)
    ensures
        devices.deep_view() == devices_upto(lines(output@), lines(output@).len() as int),
{
    let chars = to_chars(output);
    let all = lines_of(chars.as_slice());
    let mut devices: Vec<MobileDevice> = Vec::new();
    proof {
        assert(devices.deep_view() =~= Seq::<MobileDeviceModel>::empty());
        if all@.len() > 0 {
            lemma_parts_view(all, 0);
        }
    }
    if all.len() < 2 {
        return devices;
    }
    let mut i: usize = 1;
    while i < all.len()
        invariant
            1 <= i <= all@.len(),
            all.deep_view() == lines(output@),
            all.deep_view().len() == all@.len(),
            devices.deep_view() == devices_upto(all.deep_view(), i as int),
        decreases all@.len() - i,
    {
        proof {
            lemma_parts_view(all, i as int);
        }
        let ghost before = devices.deep_view();
        match read_device(&all[i]) {
            Some(device) => {
                let ghost added = device.deep_view();
                devices.push(device);
                proof {
                    assert(devices.deep_view() =~= before + seq![added]);
                }
            },
            None => {
                proof {
                    assert(before + Seq::<MobileDeviceModel>::empty() =~= before);
                }
            },
        }
        i = i + 1;
    }
    devices
}

} // verus!
