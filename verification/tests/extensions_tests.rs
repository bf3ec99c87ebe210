use watch_run::errors::CustomError;
use watch_run::extensions::{IteratorExtensions, OptionBorrow, OptionFlatten, PathExtensions, StrExtensions};

#[test]
fn last_index_of_finds_the_last_occurrence() {
    assert_eq!("abca".last_index_of('a'), Some(3));
    assert_eq!("abca".last_index_of('b'), Some(1));
    assert_eq!("x/y/z.txt".last_index_of('/'), Some(3));
}

#[test]
fn last_index_of_misses_an_absent_character() {
    assert_eq!("abc".last_index_of('z'), None);
    assert_eq!("".last_index_of('a'), None);
}

#[test]
fn flatten_collapses_two_levels() {
    let two: Option<Option<i32>> = Some(Some(5));
    let flat: Option<i32> = OptionFlatten::flatten(two);
    assert_eq!(flat, Some(5));
    let hollow: Option<Option<i32>> = Some(None);
    let flat: Option<i32> = OptionFlatten::flatten(hollow);
    assert_eq!(flat, None);
    let empty: Option<Option<i32>> = None;
    let flat: Option<i32> = OptionFlatten::flatten(empty);
    assert_eq!(flat, None);
}

#[test]
fn flatten_collapses_deeper_nests() {
    let three: Option<Option<Option<i32>>> = Some(Some(Some(7)));
    let flat: Option<i32> = OptionFlatten::flatten(three);
    assert_eq!(flat, Some(7));
    let four: Option<Option<Option<Option<i32>>>> = Some(Some(Some(Some(8))));
    let flat: Option<i32> = OptionFlatten::flatten(four);
    assert_eq!(flat, Some(8));
    let five: Option<Option<Option<Option<Option<i32>>>>> = Some(Some(Some(Some(None))));
    let flat: Option<i32> = OptionFlatten::flatten(five);
    assert_eq!(flat, None);
}

#[test]
fn borrow_map_keeps_the_option_shape() {
    let held: Option<i32> = Some(4);
    let mapped = OptionBorrow::map(&held, |x: &i32| x + 1);
    assert_eq!(mapped, Some(5));
    assert_eq!(held, Some(4));
    let none: Option<i32> = None;
    assert_eq!(OptionBorrow::map(&none, |x: &i32| x + 1), None);
}

#[test]
fn borrow_map_result_passes_failures_on() {
    let held: Option<i32> = Some(4);
    let ok = OptionBorrow::map_result(&held, |x: &i32| Ok::<i32, CustomError>(x * 2));
    assert_eq!(ok.unwrap(), Some(8));
    let failed = OptionBorrow::map_result(&held, |_x: &i32| {
        Err::<i32, CustomError>(CustomError::from_message("no"))
    });
    assert_eq!(failed.unwrap_err().to_string(), "no");
    let none: Option<i32> = None;
    let empty = OptionBorrow::map_result(&none, |x: &i32| Ok::<i32, CustomError>(*x));
    assert_eq!(empty.unwrap(), None);
}

#[test]
fn first_takes_the_earliest_match() {
    let v = vec![1, 4, 6, 8];
    assert_eq!(IteratorExtensions::first(v, |x: &i32| *x % 2 == 0), Some(4));
    let v = vec![1, 3];
    assert_eq!(IteratorExtensions::first(v, |x: &i32| *x % 2 == 0), None);
}

#[test]
fn any_result_reports_a_match_or_a_failure() {
    let v = vec![1, 2, 3];
    let hit = IteratorExtensions::any_result(v.clone(), |x: &i32| Ok::<bool, CustomError>(*x == 2));
    assert_eq!(hit.unwrap(), true);
    let miss = IteratorExtensions::any_result(v.clone(), |x: &i32| Ok::<bool, CustomError>(*x == 9));
    assert_eq!(miss.unwrap(), false);
    let failed = IteratorExtensions::any_result(v, |_x: &i32| {
        Err::<bool, CustomError>(CustomError::from_message("stop"))
    });
    assert_eq!(failed.unwrap_err().to_string(), "stop");
}

#[test]
fn map_result_maps_every_item_in_order() {
    let v = vec![1, 2, 3];
    let doubled = IteratorExtensions::map_result(v, |x: &i32| Ok::<i32, CustomError>(x * 2));
    assert_eq!(doubled.unwrap(), vec![2, 4, 6]);
}

#[test]
fn map_result_stops_at_the_first_failure() {
    let v = vec![1, 2, 3];
    let failed = IteratorExtensions::map_result(v, |x: &i32| {
        if *x == 2 {
            Err(CustomError::from_message("two"))
        } else {
            Ok(*x)
        }
    });
    assert_eq!(failed.unwrap_err().to_string(), "two");
}

#[test]
fn collect_vec_keeps_the_items() {
    let v = vec![9, 8, 7];
    assert_eq!(IteratorExtensions::collect_vec(v.clone()), v);
}

#[test]
fn paths_split_into_directory_and_file_name() {
    assert_eq!(PathExtensions::get_directory("x/y/z.txt"), "x/y");
    assert_eq!("x/y/z.txt".get_directory_as_string().unwrap(), "x/y");
    assert_eq!("x/y/z.txt".file_name_as_string().unwrap(), "z.txt");
    assert_eq!(PathExtensions::get_directory("plain"), "");
    assert_eq!("plain".file_name_as_string().unwrap(), "plain");
    assert_eq!(PathExtensions::get_as_string("a/b").unwrap(), "a/b");
}

#[test]
fn a_root_path_keeps_its_root() {
    assert_eq!(PathExtensions::get_directory("/"), "/");
    assert_eq!(PathExtensions::get_directory("/a"), "/");
    assert!("/".file_name_as_string().is_err());
}

#[test]
fn trailing_separators_name_no_extra_component() {
    assert_eq!(PathExtensions::get_directory("dir/"), "");
    assert_eq!("dir/".file_name_as_string().unwrap(), "dir");
    assert_eq!("x/y/".file_stem_as_string().unwrap(), "y");
    assert_eq!(PathExtensions::get_directory("x/y/"), "x");
}

#[test]
fn dot_and_dot_dot_components_follow_their_meaning() {
    assert!("a/..".file_name_as_string().is_err());
    assert_eq!(PathExtensions::get_directory("a/.."), "a");
    assert_eq!("a/.".file_name_as_string().unwrap(), "a");
    assert_eq!(PathExtensions::get_directory("."), "");
    assert_eq!(PathExtensions::get_directory(""), "");
}

#[test]
fn extensions_follow_the_last_dot() {
    assert_eq!("x/y/z.txt".extension_as_string().unwrap(), "txt");
    assert_eq!("archive.tar.gz".extension_as_string().unwrap(), "gz");
    assert_eq!("file.".extension_as_string().unwrap(), "");
    assert!("noext".extension_as_string().is_err());
    assert!("a/.bashrc".extension_as_string().is_err());
}

#[test]
fn stems_drop_the_extension() {
    assert_eq!("x/y/z.txt".file_stem_as_string().unwrap(), "z");
    assert_eq!("archive.tar.gz".file_stem_as_string().unwrap(), "archive.tar");
    assert_eq!(".bashrc".file_stem_as_string().unwrap(), ".bashrc");
    assert_eq!("noext".file_stem_as_string().unwrap(), "noext");
    assert_eq!("file.".file_stem_as_string().unwrap(), "file");
}
