use game_engine::asset_manager::{Asset, AssetManager};
use game_engine::error::EngineError;
use game_engine::resource::{Payload, Shader, Texture};
use std::cell::Cell;
use std::io::Cursor;

fn png_bytes(width: u32, height: u32, pixels: Vec<u8>) -> Vec<u8> {
    let image = image::RgbaImage::from_raw(width, height, pixels).unwrap();
    let mut out = Cursor::new(Vec::new());
    image.write_to(&mut out, image::ImageOutputFormat::Png).unwrap();
    out.into_inner()
}

fn rgb_png_bytes(width: u32, height: u32, pixels: Vec<u8>) -> Vec<u8> {
    let image = image::RgbImage::from_raw(width, height, pixels).unwrap();
    let mut out = Cursor::new(Vec::new());
    image.write_to(&mut out, image::ImageOutputFormat::Png).unwrap();
    out.into_inner()
}

fn brick() -> Vec<u8> {
    png_bytes(2, 1, vec![10, 20, 30, 255, 40, 50, 60, 128])
}

#[test]
fn asset_new_keeps_its_fields() {
    let asset = Asset::new(3, Some(9));
    assert_eq!(asset.indice, 3);
    assert_eq!(asset.gl_id, Some(9));
    assert_eq!(Asset::new(0, None).gl_id, None);
}

#[test]
fn decode_gives_rgba_pixels_and_size() {
    let texture = Texture::decode("brick.png", &brick()).unwrap();
    assert_eq!(texture.width, 2);
    assert_eq!(texture.height, 1);
    assert_eq!(texture.raw, vec![10, 20, 30, 255, 40, 50, 60, 128]);
}

#[test]
fn decode_converts_rgb_to_rgba() {
    let texture = Texture::decode("two.png", &rgb_png_bytes(1, 2, vec![1, 2, 3, 4, 5, 6])).unwrap();
    assert_eq!(texture.width, 1);
    assert_eq!(texture.height, 2);
    assert_eq!(texture.raw, vec![1, 2, 3, 255, 4, 5, 6, 255]);
    assert_eq!(texture.raw.len(), 4 * 1 * 2);
}

#[test]
fn decode_rejects_what_is_no_image() {
    assert_eq!(Texture::decode("none.png", &[]).err(), Some(EngineError::DecodeFailure));
    assert_eq!(Texture::decode("text.png", b"not an image").err(), Some(EngineError::DecodeFailure));
    let mut cut = brick();
    cut.truncate(20);
    assert_eq!(Texture::decode("cut.png", &cut).err(), Some(EngineError::DecodeFailure));
}

#[test]
fn from_rgba_checks_the_size() {
    let texture = Texture::from_rgba(vec![1, 2, 3, 4], 1, 1).unwrap();
    assert_eq!((texture.width, texture.height), (1, 1));
    assert_eq!(texture.raw, vec![1, 2, 3, 4]);
    let widest = Texture::from_rgba(vec![], 0x7fff_ffff, 0).unwrap();
    assert_eq!(widest.width, i32::MAX);
    assert_eq!(
        Texture::from_rgba(vec![], 0x8000_0000, 0).err(),
        Some(EngineError::DecodeFailure)
    );
    assert_eq!(
        Texture::from_rgba(vec![], 0, u32::MAX).err(),
        Some(EngineError::DecodeFailure)
    );
}

#[test]
fn texture_registered_once_and_removed() {
    let mut manager = AssetManager::new();
    let name = manager.add_texture("brick.png", &brick()).unwrap();
    assert_eq!(name, "brick.png");
    assert_eq!(manager.storage_len(), 1);
    assert_eq!(manager.assets_len(), 1);

    let again = manager.add_texture("brick.png", &brick()).unwrap();
    assert_eq!(again, "brick.png");
    assert_eq!(manager.storage_len(), 1);
    assert_eq!(manager.assets_len(), 1);

    assert_eq!(manager.remove("brick.png"), Ok(()));
    assert_eq!(manager.assets_len(), 0);
    assert_eq!(manager.storage_len(), 0);
    assert_eq!(
        manager.get_ressource::<Texture>("brick.png").err(),
        Some(EngineError::AssetNotFound)
    );
    assert_eq!(manager.remove("brick.png"), Err(EngineError::AssetNotFound));
}

#[test]
fn add_texture_again_ignores_the_bytes() {
    let mut manager = AssetManager::new();
    manager.add_texture("brick.png", &brick()).unwrap();
    let again = manager.add_texture("brick.png", b"garbage");
    assert_eq!(again, Ok(String::from("brick.png")));
    let texture = manager.get_ressource::<Texture>("brick.png").unwrap();
    assert_eq!(texture.raw, vec![10, 20, 30, 255, 40, 50, 60, 128]);
}

#[test]
fn failed_decode_registers_nothing() {
    let mut manager = AssetManager::new();
    assert_eq!(manager.add_texture("bad.png", b"garbage"), Err(EngineError::DecodeFailure));
    assert_eq!(manager.assets_len(), 0);
    assert_eq!(manager.storage_len(), 0);
    assert!(!manager.contains("bad.png"));
    assert_eq!(manager.get_asset("bad.png"), Err(EngineError::AssetNotFound));
}

#[test]
fn shader_registered_once() {
    let mut manager = AssetManager::new();
    let compiled = Cell::new(0);
    let name = manager.add_shader("light", "default", "default", |vert, frag| {
        assert_eq!((vert, frag), ("default", "default"));
        compiled.set(compiled.get() + 1);
        Shader::new(5)
    });
    assert_eq!(name, "light");
    let again = manager.add_shader("light", "other", "other", |_, _| {
        compiled.set(compiled.get() + 1);
        Shader::new(6)
    });
    assert_eq!(again, "light");
    assert_eq!(compiled.get(), 1);
    assert_eq!(manager.storage_len(), 1);
    assert_eq!(manager.get_ressource::<Shader>("light").unwrap().id, 5);
    assert_eq!(manager.get_asset("light"), Ok(Asset::new(0, None)));
}

#[test]
fn get_ressource_checks_the_kind() {
    let mut manager = AssetManager::new();
    manager.add_texture("brick.png", &brick()).unwrap();
    manager.add_shader("text", "text", "text", |_, _| Shader::new(3));
    assert_eq!(manager.get_ressource::<Texture>("brick.png").unwrap().width, 2);
    assert_eq!(
        manager.get_ressource::<Shader>("brick.png").err(),
        Some(EngineError::ResourceTypeMismatch)
    );
    assert_eq!(
        manager.get_ressource::<Texture>("text").err(),
        Some(EngineError::ResourceTypeMismatch)
    );
    assert_eq!(
        manager.get_ressource::<Shader>("nothing").err(),
        Some(EngineError::AssetNotFound)
    );
}

#[test]
fn get_ressources_keeps_storage_order() {
    let mut manager = AssetManager::new();
    manager.add_shader("a", "a", "a", |_, _| Shader::new(1));
    manager.add_texture("brick.png", &brick()).unwrap();
    manager.add_shader("b", "b", "b", |_, _| Shader::new(2));
    manager.add_shader("c", "c", "c", |_, _| Shader::new(3));
    let ids: Vec<u32> = manager.get_ressources::<Shader>().iter().map(|s| s.id).collect();
    assert_eq!(ids, vec![1, 2, 3]);
    assert_eq!(manager.get_ressources::<Texture>().len(), 1);
    assert_eq!(AssetManager::new().get_ressources::<Shader>().len(), 0);
}

#[test]
fn gl_load_uploads_once() {
    let mut manager = AssetManager::new();
    manager.add_texture("brick.png", &brick()).unwrap();
    assert_eq!(manager.get_asset("brick.png"), Ok(Asset::new(0, None)));
    let uploads = Cell::new(0);
    let first = manager.gl_load("brick.png", |width, height, raw| {
        assert_eq!((width, height), (2, 1));
        assert_eq!(raw.len(), 8);
        uploads.set(uploads.get() + 1);
        42
    });
    let second = manager.gl_load("brick.png", |_, _, _| {
        uploads.set(uploads.get() + 1);
        43
    });
    assert_eq!(first, Ok(42));
    assert_eq!(second, Ok(42));
    assert_eq!(uploads.get(), 1);
    assert_eq!(manager.get_asset("brick.png"), Ok(Asset::new(0, Some(42))));
}

#[test]
fn gl_load_fails_without_uploading() {
    let mut manager = AssetManager::new();
    manager.add_shader("text", "text", "text", |_, _| Shader::new(3));
    let uploads = Cell::new(0);
    let missing = manager.gl_load("brick.png", |_, _, _| {
        uploads.set(uploads.get() + 1);
        1
    });
    let shader = manager.gl_load("text", |_, _, _| {
        uploads.set(uploads.get() + 1);
        1
    });
    assert_eq!(missing, Err(EngineError::AssetNotFound));
    assert_eq!(shader, Err(EngineError::ResourceTypeMismatch));
    assert_eq!(uploads.get(), 0);
    assert_eq!(manager.get_asset("text"), Ok(Asset::new(0, None)));
}

#[test]
fn get_mut_asset_writes_the_handle() {
    let mut manager = AssetManager::new();
    manager.add_texture("brick.png", &brick()).unwrap();
    *manager.get_mut_asset("brick.png").unwrap() = Some(8);
    assert_eq!(manager.get_asset("brick.png"), Ok(Asset::new(0, Some(8))));
    assert_eq!(manager.get_mut_asset("nothing").err(), Some(EngineError::AssetNotFound));
}

#[test]
fn remove_keeps_the_assets_behind_the_slot() {
    let mut manager = AssetManager::new();
    manager.add_shader("a", "a", "a", |_, _| Shader::new(1));
    manager.add_texture("brick.png", &brick()).unwrap();
    manager.add_shader("b", "b", "b", |_, _| Shader::new(2));
    manager.gl_load("brick.png", |_, _, _| 77).unwrap();

    assert_eq!(manager.remove("a"), Ok(()));
    assert_eq!(manager.storage_len(), 2);
    assert_eq!(manager.assets_len(), 2);
    assert_eq!(manager.get_asset("brick.png"), Ok(Asset::new(0, Some(77))));
    assert_eq!(manager.get_asset("b"), Ok(Asset::new(1, None)));
    assert_eq!(manager.get_ressource::<Texture>("brick.png").unwrap().width, 2);
    assert_eq!(manager.get_ressource::<Shader>("b").unwrap().id, 2);
    assert!(!manager.contains("a"));
}

#[test]
fn add_textures_registers_each_path_once() {
    let mut manager = AssetManager::new();
    manager.add_texture("up.png", &brick()).unwrap();
    let small = Texture::from_rgba(vec![0, 0, 0, 0], 1, 1).unwrap();
    let other = Texture::from_rgba(vec![1, 1, 1, 1], 1, 1).unwrap();
    let twice = Texture::from_rgba(vec![2, 2, 2, 2], 1, 1).unwrap();
    manager.add_textures(vec![
        (String::from("up.png"), small),
        (String::from("dn.png"), other),
        (String::from("dn.png"), twice),
    ]);
    assert_eq!(manager.assets_len(), 2);
    assert_eq!(manager.storage_len(), 2);
    assert_eq!(manager.get_ressource::<Texture>("up.png").unwrap().width, 2);
    assert_eq!(manager.get_ressource::<Texture>("dn.png").unwrap().raw, vec![1, 1, 1, 1]);
}

#[test]
fn register_is_idempotent() {
    let mut manager = AssetManager::new();
    let first = manager.register("s", Payload::Shader(Shader::new(1)));
    let second = manager.register("s", Payload::Shader(Shader::new(2)));
    assert_eq!(first, "s");
    assert_eq!(second, "s");
    assert_eq!(manager.storage_len(), 1);
    assert_eq!(manager.get_ressource::<Shader>("s").unwrap().id, 1);
}

#[test]
fn default_manager_is_empty() {
    let manager = AssetManager::default();
    assert_eq!(manager.assets_len(), 0);
    assert_eq!(manager.storage_len(), 0);
    assert!(!manager.contains("brick.png"));
    assert_eq!(manager.get_asset("brick.png"), Err(EngineError::AssetNotFound));
}

fn tga_bytes(width: u32, height: u32, pixels: Vec<u8>) -> Vec<u8> {
    let image = image::RgbaImage::from_raw(width, height, pixels).unwrap();
    let mut out = Cursor::new(Vec::new());
    image.write_to(&mut out, image::ImageOutputFormat::Tga).unwrap();
    out.into_inner()
}

#[test]
fn decode_goes_by_the_extension_of_the_path() {
    let pixels = vec![9, 8, 7, 255, 6, 5, 4, 255];
    let texture = Texture::decode("assets/textures/wall.tga", &tga_bytes(1, 2, pixels.clone())).unwrap();
    assert_eq!((texture.width, texture.height), (1, 2));
    assert_eq!(texture.raw, pixels);
    let upper = Texture::decode("BRICK.PNG", &brick()).unwrap();
    assert_eq!((upper.width, upper.height), (2, 1));
    assert_eq!(Texture::decode("brick.dat", &brick()).err(), Some(EngineError::DecodeFailure));
    assert_eq!(Texture::decode("brick", &brick()).err(), Some(EngineError::DecodeFailure));
    assert_eq!(Texture::decode("brick.bmp", &brick()).err(), Some(EngineError::DecodeFailure));
}

#[test]
fn add_and_load_registers_and_uploads_once() {
    let mut manager = AssetManager::new();
    let uploads = Cell::new(0);
    let first = manager.add_and_load("brick.png", &brick(), |width, height, raw| {
        assert_eq!((width, height), (2, 1));
        assert_eq!(raw, &vec![10, 20, 30, 255, 40, 50, 60, 128]);
        uploads.set(uploads.get() + 1);
        42
    });
    assert_eq!(first, Ok((String::from("brick.png"), 42)));
    assert_eq!(manager.get_asset("brick.png"), Ok(Asset::new(0, Some(42))));
    assert_eq!(manager.storage_len(), 1);

    let second = manager.add_and_load("brick.png", b"garbage", |_, _, _| {
        uploads.set(uploads.get() + 1);
        43
    });
    assert_eq!(second, Ok((String::from("brick.png"), 42)));
    assert_eq!(uploads.get(), 1);
    assert_eq!(manager.storage_len(), 1);
}

#[test]
fn add_and_load_sends_what_was_registered_before() {
    let mut manager = AssetManager::new();
    manager.add_texture("brick.png", &brick()).unwrap();
    let loaded = manager.add_and_load("brick.png", &[], |width, height, _| {
        assert_eq!((width, height), (2, 1));
        7
    });
    assert_eq!(loaded, Ok((String::from("brick.png"), 7)));
    assert_eq!(manager.get_asset("brick.png"), Ok(Asset::new(0, Some(7))));
}

#[test]
fn add_and_load_fails_and_changes_nothing() {
    let mut manager = AssetManager::new();
    manager.add_shader("text", "text", "text", |_, _| Shader::new(3));
    let uploads = Cell::new(0);
    let bad = manager.add_and_load("bad.png", b"garbage", |_, _, _| {
        uploads.set(uploads.get() + 1);
        1
    });
    assert_eq!(bad, Err(EngineError::DecodeFailure));
    let shader = manager.add_and_load("text", &brick(), |_, _, _| {
        uploads.set(uploads.get() + 1);
        1
    });
    assert_eq!(shader, Err(EngineError::ResourceTypeMismatch));
    assert_eq!(uploads.get(), 0);
    assert_eq!(manager.assets_len(), 1);
    assert_eq!(manager.storage_len(), 1);
    assert!(!manager.contains("bad.png"));
    assert_eq!(manager.get_asset("text"), Ok(Asset::new(0, None)));
}
