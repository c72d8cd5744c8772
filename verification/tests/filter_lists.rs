use adblock::filter_lists::default::default_lists;
use adblock::filter_lists::regions::regions;
use adblock::filter_lists::slimlist::slim_list;

#[test]
fn default_lists_catalog() {
    let lists = default_lists();
    assert_eq!(lists.len(), 5);
    assert_eq!(lists[0].title, "EasyList");
    assert_eq!(lists[0].url, "https://easylist.to/easylist/easylist.txt");
    assert_eq!(lists[1].uuid, "48010209-AD34-4DF5-A80C-3D2A7C3920C0");
    assert!(lists.iter().all(|l| l.langs.is_empty() && l.desc.is_empty()));
    assert_eq!(lists[4].title, "NoCoin Filter List");
}

#[test]
fn regions_catalog() {
    let lists = regions();
    assert_eq!(lists.len(), 41);
    assert_eq!(lists[0].title, "Liste AR");
    assert_eq!(lists[0].langs, vec!["ar".to_string()]);
    assert_eq!(lists[0].component_id, "gpgegghiabhggiplapgdfnfcmodkccji");
    assert_eq!(lists[2].title, "EasyList China (中文)");
    assert_eq!(lists[5].langs, vec!["cs".to_string(), "sk".to_string()]);
    assert_eq!(lists[40].title, "ABPVN List");
    assert_eq!(lists[40].desc, "Removes advertisements from Vietnamese websites");
    assert!(lists.iter().all(|l| !l.base64_public_key.is_empty()));
    assert_eq!(lists.iter().filter(|l| l.langs.is_empty()).count(), 7);
}

#[test]
fn slim_list_catalog() {
    let lists = slim_list();
    assert_eq!(lists.len(), 1);
    assert_eq!(lists[0].title, "Brave SlimList");
    assert_eq!(lists[0].url, "https://adblock-data.s3.amazonaws.com/ios/latest.txt");
}
