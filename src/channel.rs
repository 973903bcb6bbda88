//! Routing of inbound virtual-channel messages by channel name.
use crate::error::{ErrorKind, RdpResult};
use vstd::prelude::*;
use vstd::string::StringSliceAdditionalSpecFns;

verus! {

/// The static channels this client serves.
#[derive(Clone, Copy, Debug, PartialEq, Eq, Structural)]
pub enum ChannelKind {
    /// "cliprdr": the clipboard channel.
    Clipboard,
    /// "rdpdr": the device redirection channel.
    DeviceRedirection,
    /// "rdpsnd": audio output, accepted and dropped.
    Audio,
}

pub open spec fn cliprdr_name() -> Seq<u8> {
    seq![99u8, 108, 105, 112, 114, 100, 114]
}

pub open spec fn rdpdr_name() -> Seq<u8> {
    seq![114u8, 100, 112, 100, 114]
}

pub open spec fn rdpsnd_name() -> Seq<u8> {
    seq![114u8, 100, 112, 115, 110, 100]
}

fn bytes_equal(a: &[u8], b: &[u8]) -> (r: bool)
    ensures
        r == (a@ == b@),
{
    if a.len() != b.len() {
        return false;
    }
    let mut i: usize = 0;
    while i < a.len()
        invariant
            a@.len() == b@.len(),
            i <= a@.len(),
            forall|j: int| 0 <= j < i ==> a@[j] == b@[j],
        decreases a@.len() - i,
    {
        if a[i] != b[i] {
            return false;
        }
        i = i + 1;
    }
    assert(a@ =~= b@);
    true
}

/// The channel a message arrived on, by the channel's name; any other name is
/// a protocol error.
pub fn channel_kind(name: &str) -> (r: RdpResult<ChannelKind>)
    ensures
        name.spec_bytes() == cliprdr_name() ==> r == Ok::<ChannelKind, ErrorKind>(ChannelKind::Clipboard),
        name.spec_bytes() == rdpdr_name() ==> r == Ok::<ChannelKind, ErrorKind>(ChannelKind::DeviceRedirection),
        name.spec_bytes() == rdpsnd_name() ==> r == Ok::<ChannelKind, ErrorKind>(ChannelKind::Audio),
        name.spec_bytes() != cliprdr_name() && name.spec_bytes() != rdpdr_name() && name.spec_bytes()
            != rdpsnd_name() ==> r == Err::<ChannelKind, ErrorKind>(ErrorKind::Protocol),
{
    let b = name.as_bytes();
    let clip: [u8; 7] = [99u8, 108, 105, 112, 114, 100, 114];
    let rdpdr: [u8; 5] = [114u8, 100, 112, 100, 114];
    let snd: [u8; 6] = [114u8, 100, 112, 115, 110, 100];
    proof {
        assert(clip@ =~= cliprdr_name());
        assert(rdpdr@ =~= rdpdr_name());
        assert(snd@ =~= rdpsnd_name());
    }
    if bytes_equal(b, clip.as_slice()) {
        Ok(ChannelKind::Clipboard)
    } else if bytes_equal(b, rdpdr.as_slice()) {
        Ok(ChannelKind::DeviceRedirection)
    } else if bytes_equal(b, snd.as_slice()) {
        Ok(ChannelKind::Audio)
    } else {
        Err(ErrorKind::Protocol)
    }
}

} // verus!
