//! Fixed-size device records handed to the application over the C ABI: an
//! id (`u32`) followed by position x, y, z and rotation x, y, z, w (`f32`),
//! all little-endian, 32 bytes per device.
use crate::model::{Pose, Quaternion, Vec3, ONE_BITS};
use crate::xr_wrap::XR_ERROR_SIZE_INSUFFICIENT;
use vstd::prelude::*;

verus! {

/// Size of one device record in bytes.
pub const DEVICE_RECORD_SIZE: usize = 32usize;

/// The 4 little-endian bytes of `v`.
pub open spec fn le32(v: u32) -> Seq<u8> {
    seq![
        (v & 0xff) as u8,
        ((v >> 8u32) & 0xff) as u8,
        ((v >> 16u32) & 0xff) as u8,
        ((v >> 24u32) & 0xff) as u8,
    ]
}

/// The record of a device with id `id` at `pose`.
pub open spec fn device_record(id: u32, pose: Pose) -> Seq<u8> {
    le32(id) + le32(pose.position.x) + le32(pose.position.y) + le32(pose.position.z) + le32(
        pose.orientation.x,
    ) + le32(pose.orientation.y) + le32(pose.orientation.z) + le32(pose.orientation.w)
}

/// The pose written for a device that is not tracked: one metre up, not
/// rotated.
pub open spec fn untracked_pose() -> Pose {
    Pose {
        position: Vec3 { x: 0, y: ONE_BITS, z: 0 },
        orientation: Quaternion { x: 0, y: 0, z: 0, w: ONE_BITS },
    }
}

fn push_le32(out: &mut Vec<u8>, v: u32)
    ensures
        final(out)@ == old(out)@ + le32(v),
{
    out.push((v & 0xff) as u8);
    out.push(((v >> 8u32) & 0xff) as u8);
    out.push(((v >> 16u32) & 0xff) as u8);
    out.push(((v >> 24u32) & 0xff) as u8);
    proof {
        assert(out@ =~= old(out)@ + le32(v));
    }
}

/// Appends the record of a device with id `id` at `pose`.
pub fn push_device_record(out: &mut Vec<u8>, id: u32, pose: Pose)
    ensures
        final(out)@ == old(out)@ + device_record(id, pose),
        final(out)@.len() == old(out)@.len() + 32,
        final(out)@.subrange(0, old(out)@.len() as int) == old(out)@,
        final(out)@.subrange(old(out)@.len() as int, old(out)@.len() as int + 4) == le32(id),
        final(out)@.subrange(old(out)@.len() as int + 4, old(out)@.len() as int + 8) == le32(pose.position.x),
        final(out)@.subrange(old(out)@.len() as int + 8, old(out)@.len() as int + 12) == le32(pose.position.y),
        final(out)@.subrange(old(out)@.len() as int + 12, old(out)@.len() as int + 16) == le32(pose.position.z),
        final(out)@.subrange(old(out)@.len() as int + 16, old(out)@.len() as int + 20) == le32(pose.orientation.x),
        final(out)@.subrange(old(out)@.len() as int + 20, old(out)@.len() as int + 24) == le32(pose.orientation.y),
        final(out)@.subrange(old(out)@.len() as int + 24, old(out)@.len() as int + 28) == le32(pose.orientation.z),
        final(out)@.subrange(old(out)@.len() as int + 28, old(out)@.len() as int + 32) == le32(pose.orientation.w),
{
    push_le32(out, id);
    push_le32(out, pose.position.x);
    push_le32(out, pose.position.y);
    push_le32(out, pose.position.z);
    push_le32(out, pose.orientation.x);
    push_le32(out, pose.orientation.y);
    push_le32(out, pose.orientation.z);
    push_le32(out, pose.orientation.w);
    proof {
        assert(out@ =~= old(out)@ + device_record(id, pose));
        device_record_layout(id, pose);
        let n = old(out)@.len() as int;
        let r = device_record(id, pose);
        assert(out@.subrange(0, n) =~= old(out)@);
        assert forall|a: int, b: int| 0 <= a <= b <= 32 implies out@.subrange(n + a, n + b) =~= r.subrange(a, b) by {}
        assert(out@.subrange(n, n + 4) =~= r.subrange(0, 4));
        assert(out@.subrange(n + 4, n + 8) =~= r.subrange(4, 8));
        assert(out@.subrange(n + 8, n + 12) =~= r.subrange(8, 12));
        assert(out@.subrange(n + 12, n + 16) =~= r.subrange(12, 16));
        assert(out@.subrange(n + 16, n + 20) =~= r.subrange(16, 20));
        assert(out@.subrange(n + 20, n + 24) =~= r.subrange(20, 24));
        assert(out@.subrange(n + 24, n + 28) =~= r.subrange(24, 28));
        assert(out@.subrange(n + 28, n + 32) =~= r.subrange(28, 32));
    }
}

/// The records of `count` devices: device `i` has id `i + 1` and the `i`-th
/// view pose; devices without a view have id 0 and the untracked pose.
pub open spec fn device_records(views: Seq<Pose>, count: nat) -> Seq<u8>
    decreases count,
{
    if count == 0 {
        Seq::empty()
    } else {
        let i = count - 1;
        device_records(views, i as nat) + if i < views.len() {
            device_record((i + 1) as u32, views[i as int])
        } else {
            device_record(0, untracked_pose())
        }
    }
}

/// Writes the records of `count` devices from the located views.
pub fn remote_device_data(views: &Vec<Pose>, count: usize) -> (r: Vec<u8>)
    requires
        count <= u32::MAX || views.len() <= u32::MAX,
        count * 32 <= usize::MAX,
    ensures
        r@ == device_records(views@, count as nat),
        r@.len() == count * 32,
        forall|i: int|
            0 <= i < count ==> #[trigger] r@.subrange(32 * i, 32 * i + 32) == if i < views@.len() {
                device_record((i + 1) as u32, views@[i])
            } else {
                device_record(0, untracked_pose())
            },
{
    let mut out: Vec<u8> = Vec::new();
    let mut i: usize = 0;
    while i < count
        invariant
            i <= count,
            count <= u32::MAX || views.len() <= u32::MAX,
            count * 32 <= usize::MAX,
            out@ == device_records(views@, i as nat),
            out@.len() == i * 32,
        decreases count - i,
    {
        if i < views.len() {
            push_device_record(&mut out, (i + 1) as u32, views[i]);
        } else {
            push_device_record(
                &mut out,
                0,
                Pose {
                    position: Vec3 { x: 0, y: ONE_BITS, z: 0 },
                    orientation: Quaternion { x: 0, y: 0, z: 0, w: ONE_BITS },
                },
            );
        }
        i = i + 1;
    }
    proof {
        assert forall|j: int| 0 <= j < count implies #[trigger] out@.subrange(32 * j, 32 * j + 32)
            == if j < views@.len() {
            device_record((j + 1) as u32, views@[j])
        } else {
            device_record(0, untracked_pose())
        } by {
            device_records_position(views@, count as nat, j as nat);
        }
    }
    out
}

/// The fixed data for a buffer of `length` bytes: one record of
/// device 1 at the untracked pose, or `XR_ERROR_SIZE_INSUFFICIENT` when
/// the buffer is not a whole number of records. Only buffers of at most one
/// record can be filled.
pub fn fixed_device_data(length: u32) -> (r: Result<Vec<u8>, i32>)
    requires
        length % 32 != 0 || length < 2 * 32,
    ensures
        length % 32 != 0 ==> r == Err::<Vec<u8>, i32>(XR_ERROR_SIZE_INSUFFICIENT),
        length == 0 ==> (r matches Ok(v) && v@.len() == 0),
        length == 32 ==> (r matches Ok(v) && v@ == device_record(1, untracked_pose())),
{
    if length % 32 != 0 {
        return Err(XR_ERROR_SIZE_INSUFFICIENT);
    }
    let mut out: Vec<u8> = Vec::new();
    if length == 32 {
        push_device_record(
            &mut out,
            1,
            Pose {
                position: Vec3 { x: 0, y: ONE_BITS, z: 0 },
                orientation: Quaternion { x: 0, y: 0, z: 0, w: ONE_BITS },
            },
        );
    }
    Ok(out)
}

/// The four bytes of `le32(v)` are `v` in little-endian order.
pub proof fn le32_is_little_endian(v: u32)
    ensures
        le32(v).len() == 4,
        le32(v)[0] + 256 * le32(v)[1] + 65536 * le32(v)[2] + 16777216 * le32(v)[3] == v,
{
    let b0 = (v & 0xff) as u8;
    let b1 = ((v >> 8u32) & 0xff) as u8;
    let b2 = ((v >> 16u32) & 0xff) as u8;
    let b3 = ((v >> 24u32) & 0xff) as u8;
    assert(b0 + 256 * b1 + 65536 * b2 + 16777216 * b3 == v) by (bit_vector)
        requires
            b0 == (v & 0xff) as u8,
            b1 == ((v >> 8u32) & 0xff) as u8,
            b2 == ((v >> 16u32) & 0xff) as u8,
            b3 == ((v >> 24u32) & 0xff) as u8,
    ;
}

/// A device record is 32 bytes: the id, then the position x, y, z, then the
/// rotation x, y, z, w, each as 4 little-endian bytes, in that order.
pub proof fn device_record_layout(id: u32, pose: Pose)
    ensures
        device_record(id, pose).len() == 32,
        device_record(id, pose).subrange(0, 4) == le32(id),
        device_record(id, pose).subrange(4, 8) == le32(pose.position.x),
        device_record(id, pose).subrange(8, 12) == le32(pose.position.y),
        device_record(id, pose).subrange(12, 16) == le32(pose.position.z),
        device_record(id, pose).subrange(16, 20) == le32(pose.orientation.x),
        device_record(id, pose).subrange(20, 24) == le32(pose.orientation.y),
        device_record(id, pose).subrange(24, 28) == le32(pose.orientation.z),
        device_record(id, pose).subrange(28, 32) == le32(pose.orientation.w),
{
    let r = device_record(id, pose);
    assert(r.subrange(0, 4) =~= le32(id));
    assert(r.subrange(4, 8) =~= le32(pose.position.x));
    assert(r.subrange(8, 12) =~= le32(pose.position.y));
    assert(r.subrange(12, 16) =~= le32(pose.position.z));
    assert(r.subrange(16, 20) =~= le32(pose.orientation.x));
    assert(r.subrange(20, 24) =~= le32(pose.orientation.y));
    assert(r.subrange(24, 28) =~= le32(pose.orientation.z));
    assert(r.subrange(28, 32) =~= le32(pose.orientation.w));
}

/// Record `i` of the device data sits at bytes `32 * i .. 32 * i + 32`: the
/// `i`-th view with id `i + 1`, or id 0 at the untracked pose past the
/// views.
pub proof fn device_records_position(views: Seq<Pose>, count: nat, i: nat)
    requires
        i < count,
        count <= u32::MAX || views.len() <= u32::MAX,
    ensures
        device_records(views, count).len() == 32 * count,
        device_records(views, count).subrange(32 * (i as int), 32 * (i as int) + 32) == if i < views.len() {
            device_record((i + 1) as u32, views[i as int])
        } else {
            device_record(0, untracked_pose())
        },
    decreases count,
{
    lemma_device_records_len(views, count);
    let last = (count - 1) as nat;
    lemma_device_records_len(views, last);
    let before = device_records(views, last);
    let rec = if last < views.len() {
        device_record((last + 1) as u32, views[last as int])
    } else {
        device_record(0, untracked_pose())
    };
    device_record_layout((last + 1) as u32, views[last as int]);
    device_record_layout(0, untracked_pose());
    assert(device_records(views, count) == before + rec);
    if i == last {
        assert(device_records(views, count).subrange(32 * (i as int), 32 * (i as int) + 32) =~= rec);
    } else {
        device_records_position(views, last, i);
        assert(device_records(views, count).subrange(32 * (i as int), 32 * (i as int) + 32) =~= before.subrange(32 * (i as int), 32 * (i as int) + 32));
    }
}

proof fn lemma_device_records_len(views: Seq<Pose>, count: nat)
    ensures
        device_records(views, count).len() == 32 * count,
    decreases count,
{
    if count > 0 {
        lemma_device_records_len(views, (count - 1) as nat);
        device_record_layout(0, untracked_pose());
        device_record_layout(count as u32, views[count - 1]);
    }
}

} // verus!
