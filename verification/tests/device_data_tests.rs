use netvr::device_data::{fixed_device_data, push_device_record, remote_device_data};
use netvr::model::{Pose, Quaternion, Vec3};

fn pose(x: f32, y: f32, z: f32) -> Pose {
    Pose {
        position: Vec3 { x: x.to_bits(), y: y.to_bits(), z: z.to_bits() },
        orientation: Quaternion { x: 0, y: 0, z: 0, w: 1.0f32.to_bits() },
    }
}

fn f32_at(data: &[u8], offset: usize) -> f32 {
    f32::from_le_bytes([data[offset], data[offset + 1], data[offset + 2], data[offset + 3]])
}

fn u32_at(data: &[u8], offset: usize) -> u32 {
    u32::from_le_bytes([data[offset], data[offset + 1], data[offset + 2], data[offset + 3]])
}

#[test]
fn one_record_layout() {
    let mut out = Vec::new();
    push_device_record(&mut out, 7, pose(1.5, -2.0, 3.25));
    assert_eq!(out.len(), 32);
    assert_eq!(u32_at(&out, 0), 7);
    assert_eq!(f32_at(&out, 4), 1.5);
    assert_eq!(f32_at(&out, 8), -2.0);
    assert_eq!(f32_at(&out, 12), 3.25);
    assert_eq!(f32_at(&out, 16), 0.0);
    assert_eq!(f32_at(&out, 28), 1.0);
}

#[test]
fn views_then_untracked_devices() {
    let views = vec![pose(1.0, 2.0, 3.0)];
    let data = remote_device_data(&views, 3);
    assert_eq!(data.len(), 96);
    assert_eq!(u32_at(&data, 0), 1);
    assert_eq!(f32_at(&data, 4), 1.0);
    assert_eq!(f32_at(&data, 12), 3.0);
    assert_eq!(u32_at(&data, 32), 0);
    assert_eq!(f32_at(&data, 32 + 8), 1.0);
    assert_eq!(f32_at(&data, 32 + 28), 1.0);
    assert_eq!(u32_at(&data, 64), 0);
}

#[test]
fn no_devices_no_bytes() {
    let views = vec![pose(1.0, 2.0, 3.0)];
    assert!(remote_device_data(&views, 0).is_empty());
}

#[test]
fn fixed_buffer() {
    assert_eq!(fixed_device_data(10), Err(-11));
    assert_eq!(fixed_device_data(100), Err(-11));
    assert_eq!(fixed_device_data(0), Ok(vec![]));
    let data = fixed_device_data(32).unwrap();
    assert_eq!(data.len(), 32);
    assert_eq!(u32_at(&data, 0), 1);
    assert_eq!(f32_at(&data, 8), 1.0);
    assert_eq!(f32_at(&data, 28), 1.0);
}
