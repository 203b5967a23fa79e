use skid_core::codec::{decode_image_from_png, encode_image_to_png, channel_plane, image_to_rgba16};
use skid_core::color::SKIDColor;
use skid_core::device::{
    compute_launch_geometry, copy_image_to_buffer, image_from_bytes, image_to_bytes, CpuDevice,
    LaunchGeometry, STATUS_BUFFER_TOO_SMALL, STATUS_INVALID_HANDLE, STATUS_OK,
};
use skid_core::image::{SKIDImage, SKIDSizeVector2};
use skid_core::registry::HandleRegistry;

fn small_image() -> SKIDImage {
    SKIDImage::from_data(
        2,
        1,
        vec![SKIDColor::new(1, 2, 3, 4), SKIDColor::new(250, 200, 150, 255)],
    )
}

#[test]
fn handle_lifecycle_create_free_resolve() {
    let mut reg = HandleRegistry::new();
    let img = small_image();
    let h = reg.create(img);
    assert!(h != 0);
    assert!(reg.resolve(h).is_some());
    reg.free(h);
    // A freed handle resolves to "invalid handle", not a fault.
    assert!(reg.resolve(h).is_none());
    // Double free is a no-op, as is freeing the reserved zero handle.
    reg.free(h);
    reg.free(0);
    assert!(reg.resolve(h).is_none());
    // Handles grow strictly and are never reused after a free.
    let h2 = reg.create(small_image());
    assert!(h2 > h);
    assert_eq!(reg.live_count(), 1);
}

#[test]
fn handle_replace_only_hits_live_handles() {
    let mut reg = HandleRegistry::new();
    let h = reg.create(small_image());
    assert!(reg.replace(h, SKIDImage::new(1, 1)));
    let got = reg.resolve(h).unwrap();
    assert_eq!(got.get_size(), SKIDSizeVector2 { width: 1, height: 1 });
    assert!(!reg.replace(9999, SKIDImage::new(1, 1)));
    assert!(!reg.replace(0, SKIDImage::new(1, 1)));
}

#[test]
fn launch_geometry_small_grid_uses_capped_threads() {
    let geo = compute_launch_geometry(10, 10, 1024, 1024);
    assert_eq!(
        geo,
        LaunchGeometry { threads_x: 10, threads_y: 10, blocks_x: 1, blocks_y: 1 }
    );
}

#[test]
fn launch_geometry_large_grid_falls_back_to_32nd() {
    let geo = compute_launch_geometry(100, 50, 1024, 1024);
    // 100 * 50 threads exceed 1024, so each axis falls back to a 32nd,
    // clamped to at least one; blocks cover by ceiling division.
    assert_eq!(
        geo,
        LaunchGeometry { threads_x: 3, threads_y: 1, blocks_x: 34, blocks_y: 50 }
    );
    assert!(geo.blocks_x * geo.threads_x >= 100);
    assert!(geo.blocks_y * geo.threads_y >= 50);
}

#[test]
fn device_upload_download_roundtrip() {
    let mut dev = CpuDevice::new();
    let id = dev.alloc_buffer(4);
    let data = vec![9u8, 8, 7, 6];
    assert!(dev.upload(id, &data));
    let mut out = vec![0u8; 4];
    assert_eq!(dev.download(id, &mut out), STATUS_OK);
    assert_eq!(out, data);
    let mut too_small = vec![0u8; 3];
    assert_eq!(dev.download(id, &mut too_small), STATUS_BUFFER_TOO_SMALL);
    assert_eq!(too_small, vec![0u8; 3]);
    assert_eq!(dev.download(id + 1, &mut out), STATUS_INVALID_HANDLE);
    assert!(!dev.upload(id + 1, &data));
}

#[test]
fn image_byte_form_roundtrip() {
    let img = small_image();
    let bytes = image_to_bytes(&img);
    assert_eq!(bytes, vec![1, 2, 3, 4, 250, 200, 150, 255]);
    let back = image_from_bytes(2, 1, &bytes);
    assert_eq!(back.get_pixel(0, 0), img.get_pixel(0, 0));
    assert_eq!(back.get_pixel(1, 0), img.get_pixel(1, 0));
}

#[test]
fn copy_to_buffer_reports_capacity() {
    let img = small_image();
    let mut exact = vec![0u8; 8];
    assert_eq!(copy_image_to_buffer(&img, &mut exact), STATUS_OK);
    assert_eq!(exact, vec![1, 2, 3, 4, 250, 200, 150, 255]);
    let mut small = vec![0u8; 7];
    assert_eq!(copy_image_to_buffer(&img, &mut small), STATUS_BUFFER_TOO_SMALL);
    assert_eq!(small, vec![0u8; 7]);
    let mut big = vec![42u8; 10];
    assert_eq!(copy_image_to_buffer(&img, &mut big), STATUS_OK);
    assert_eq!(big, vec![1, 2, 3, 4, 250, 200, 150, 255, 42, 42]);
}

#[test]
fn rgba16_samples_scale_channels() {
    let img = small_image();
    let samples = image_to_rgba16(&img);
    assert_eq!(
        samples,
        vec![257, 514, 771, 1028, 64250, 51400, 38550, 65535]
    );
}

#[test]
fn channel_planes_extract_channels() {
    let img = small_image();
    assert_eq!(channel_plane(&img, 0), vec![1, 250]);
    assert_eq!(channel_plane(&img, 1), vec![2, 200]);
    assert_eq!(channel_plane(&img, 2), vec![3, 150]);
    assert_eq!(channel_plane(&img, 3), vec![4, 255]);
}

#[test]
fn png_roundtrip_preserves_pixels() {
    let img = small_image();
    let png = encode_image_to_png(&img);
    // A PNG stream, not the raw samples: it starts with the PNG signature.
    assert_eq!(&png[0..8], &[0x89, b'P', b'N', b'G', 0x0D, 0x0A, 0x1A, 0x0A]);
    let back = decode_image_from_png(&png).expect("decoding our own PNG succeeds");
    assert_eq!(back.get_size(), img.get_size());
    for x in 0..2 {
        assert_eq!(back.get_pixel(x, 0), img.get_pixel(x, 0));
    }
}

#[test]
fn png_decode_rejects_garbage() {
    let garbage = vec![1u8, 2, 3, 4, 5];
    assert!(decode_image_from_png(&garbage).is_err());
}
