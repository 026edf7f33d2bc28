//! The icon resources of each accent colour.

use alttabio::app_icon::{app_resource_id, tray_resource_id};
use alttabio::settings::IconColor;

#[test]
fn azure_is_the_default_executable_and_tray_resource() {
    assert_eq!(IconColor::default(), IconColor::Azure);
    assert_eq!(app_resource_id(IconColor::default()), 1);
    assert_eq!(tray_resource_id(IconColor::default()), 101);
}

#[test]
fn every_icon_color_maps_to_distinct_app_and_tray_resources() {
    let app_ids = IconColor::ALL.map(app_resource_id);
    let tray_ids = IconColor::ALL.map(tray_resource_id);

    for index in 0..IconColor::ALL.len() {
        assert_eq!(
            app_ids.iter().filter(|id| **id == app_ids[index]).count(),
            1
        );
        assert_eq!(
            tray_ids.iter().filter(|id| **id == tray_ids[index]).count(),
            1
        );
        assert!(app_ids[index] < tray_ids[index]);
    }
}

#[test]
fn violet_is_the_last_resource_of_each_kind() {
    assert_eq!(app_resource_id(IconColor::Violet), 8);
    assert_eq!(tray_resource_id(IconColor::Violet), 108);
    assert_eq!(tray_resource_id(IconColor::Orchid), 105);
}
