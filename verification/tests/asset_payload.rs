use ffxiv_scene::asset::{FFXIVMaterial, FFXIVTexture};

#[test]
fn material_keeps_names_in_sampler_order() {
    let material = FFXIVMaterial::new(
        vec!["common/one.tex".to_string(), "common/two.tex".to_string()],
        "bg.shpk".to_string(),
    );
    assert_eq!(material.texture_names, vec!["common/one.tex", "common/two.tex"]);
    assert_eq!(material.shader_name, "bg.shpk");
}

#[test]
fn texture_counts_whole_pixels() {
    assert_eq!(FFXIVTexture::new(vec![0u8; 16]).pixel_count(), 4);
    assert_eq!(FFXIVTexture::new(vec![0u8; 18]).pixel_count(), 4);
    assert_eq!(FFXIVTexture::new(Vec::new()).pixel_count(), 0);
}
