use bench_harness::command::Invocation;
use bench_harness::images::{
    conversion_command, image_path, noise_command, quality_command, quality_path,
    random_noise_command,
};
use bench_harness::rng::{random_colour, Colour};

fn strings(items: &[&str]) -> Vec<String> {
    items.iter().map(|s| s.to_string()).collect()
}

#[test]
fn image_names_have_three_digits_or_more() {
    assert_eq!(image_path("images_run_1", 7, "png"), "images_run_1/image_007.png");
    assert_eq!(image_path("d", 0, "jpg"), "d/image_000.jpg");
    assert_eq!(image_path("d", 999, "webp"), "d/image_999.webp");
    assert_eq!(image_path("d", 1000, "webp"), "d/image_1000.webp");
    assert_eq!(image_path("", 12, ""), "/image_012.");
    for i in [0u32, 5, 10, 123, 4567, u32::MAX] {
        assert_eq!(image_path("x", i, "png"), format!("{}/image_{:03}.{}", "x", i, "png"));
    }
}

#[test]
fn rendition_names_carry_the_quality() {
    assert_eq!(quality_path("test_images_run_2", 3, 80), "test_images_run_2/image_003_q80.webp");
    for (i, q) in [(0u32, 100u32), (17, 60), (1234, 0)] {
        assert_eq!(quality_path("t", i, q), format!("{}/image_{:03}_q{}.webp", "t", i, q));
    }
}

#[test]
fn noise_image_invocation() {
    let command = noise_command("images_run_1", 4, Colour { r: 255, g: 0, b: 17 });
    assert_eq!(
        command,
        Invocation {
            program: "convert".to_string(),
            args: strings(&[
                "-size",
                "1024x1024",
                "xc:rgb(255,0,17)",
                "+noise",
                "Random",
                "images_run_1/image_004.png",
            ]),
            quiet: false,
        }
    );
}

#[test]
fn random_noise_invocation_uses_the_colour_drawn() {
    for index in 0..8 {
        let (colour, command) = random_noise_command("out", index);
        assert_eq!(command, noise_command("out", index, colour));
        assert_eq!(command.args[2], format!("xc:rgb({},{},{})", colour.r, colour.g, colour.b));
    }
}

#[test]
fn random_colours_vary() {
    let first = random_colour();
    let mut differs = false;
    for _ in 0..64 {
        if random_colour() != first {
            differs = true;
        }
    }
    assert!(differs);
}

#[test]
fn conversion_to_jpg_and_webp_asks_for_full_quality() {
    assert_eq!(
        conversion_command("images_run_3", "png", "jpg", 12).args,
        strings(&["images_run_3/image_012.png", "-quality", "100", "images_run_3/image_012.jpg"])
    );
    assert_eq!(
        conversion_command("images_run_3", "png", "webp", 12).args,
        strings(&["images_run_3/image_012.png", "-quality", "100", "images_run_3/image_012.webp"])
    );
    let command = conversion_command("d", "png", "jpg", 0);
    assert_eq!(command.program, "convert");
    assert!(!command.quiet);
}

#[test]
fn conversion_to_other_formats_has_no_quality() {
    assert_eq!(
        conversion_command("d", "jpg", "png", 1).args,
        strings(&["d/image_001.jpg", "d/image_001.png"])
    );
    assert_eq!(
        conversion_command("d", "png", "JPG", 1).args,
        strings(&["d/image_001.png", "d/image_001.JPG"])
    );
}

#[test]
fn conversion_at_a_quality_level() {
    assert_eq!(
        quality_command("test_images_run_1", 80, 2),
        Invocation {
            program: "convert".to_string(),
            args: strings(&[
                "test_images_run_1/image_002.png",
                "-quality",
                "80",
                "test_images_run_1/image_002_q80.webp",
            ]),
            quiet: false,
        }
    );
}

#[test]
fn images_with_different_numbers_have_different_names() {
    let mut names = std::collections::BTreeSet::new();
    for i in 0..2500u32 {
        assert!(names.insert(image_path("d", i, "png")));
    }
    let mut renditions = std::collections::BTreeSet::new();
    for i in 0..2500u32 {
        assert!(renditions.insert(quality_path("d", i, 80)));
    }
}

#[test]
fn renditions_at_different_qualities_have_different_names() {
    let mut names = std::collections::BTreeSet::new();
    for quality in [100u32, 80, 60, 10, 1, 0, 8, 6] {
        for i in 0..1200u32 {
            assert!(names.insert(quality_path("d", i, quality)));
        }
    }
    for i in 0..1200u32 {
        assert!(names.insert(image_path("d", i, "webp")));
    }
}
