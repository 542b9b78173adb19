use std::path::Path;

use animeupscale::concat::{after_concat_failure, concat_args, concat_file_content};
use animeupscale::config::Container;
use animeupscale::error::AppError;
use animeupscale::paths::part_path_for;

#[test]
fn part_path_is_in_same_directory_with_part_suffix() {
    let output = "/videos/out/anime_4k60.mkv";
    let part = part_path_for(output);
    assert_eq!(part, "/videos/out/anime_4k60.mkv.part");
    // Same directory: the rename is then atomic.
    assert_eq!(Path::new(&part).parent(), Path::new(output).parent());
}

#[test]
fn part_path_preserves_mp4_extension_in_stem() {
    let part = part_path_for("anime_4k60.mp4");
    assert_eq!(part, "anime_4k60.mp4.part");
}
