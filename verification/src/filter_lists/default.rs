//! The filter lists that are loaded by default.

use vstd::prelude::*;

use super::{entry, langs0, lists_view, FilterList, FilterListView};

verus! {

/// The fields of each default filter list, in order.
pub open spec fn default_lists_view() -> Seq<FilterListView> {
    seq![
        FilterListView {
            uuid: "67F880F5-7602-4042-8A3D-01481FD7437A"@,
            url: "https://easylist.to/easylist/easylist.txt"@,
            title: "EasyList"@,
            langs: seq![],
            support_url: "https://easylist.to/"@,
            component_id: ""@,
            base64_public_key: ""@,
            desc: ""@,
        },
        FilterListView {
            uuid: "48010209-AD34-4DF5-A80C-3D2A7C3920C0"@,
            url: "https://easylist.to/easylist/easyprivacy.txt"@,
            title: "EasyPrivacy"@,
            langs: seq![],
            support_url: "https://easylist.to/"@,
            component_id: ""@,
            base64_public_key: ""@,
            desc: ""@,
        },
        FilterListView {
            uuid: "200392E7-9A0F-40DF-86EB-6AF7E4071322"@,
            url: "https://raw.githubusercontent.com/uBlockOrigin/uAssets/master/filters/unbreak.txt"@,
            title: "uBlock Unbreak"@,
            langs: seq![],
            support_url: "https://github.com/gorhill/uBlock"@,
            component_id: ""@,
            base64_public_key: ""@,
            desc: ""@,
        },
        FilterListView {
            uuid: "2FBEB0BC-E2E1-4170-BAA9-05E76AAB5BA5"@,
            url: "https://raw.githubusercontent.com/brave/adblock-lists/master/brave-unbreak.txt"@,
            title: "Brave Unblock"@,
            langs: seq![],
            support_url: "https://github.com/brave/adblock-lists"@,
            component_id: ""@,
            base64_public_key: ""@,
            desc: ""@,
        },
        FilterListView {
            uuid: "BCDF774A-7845-4121-B7EB-77EB66CEDF84"@,
            url: "https://raw.githubusercontent.com/brave/adblock-lists/master/coin-miners.txt"@,
            title: "NoCoin Filter List"@,
            langs: seq![],
            support_url: "https://github.com/brave/adblock-lists"@,
            component_id: ""@,
            base64_public_key: ""@,
            desc: ""@,
        },
    ]
}

/// The filter lists that are loaded by default: EasyList, EasyPrivacy, the unbreak lists and the coin miner list.
pub fn default_lists() -> (r: Vec<FilterList>)
    ensures
        lists_view(r@) == default_lists_view(),
{
    let r = vec![
        entry(
            "67F880F5-7602-4042-8A3D-01481FD7437A",
            "https://easylist.to/easylist/easylist.txt",
            "EasyList",
            langs0(),
            "https://easylist.to/",
            "",
            "",
            "",
        ),
        entry(
            "48010209-AD34-4DF5-A80C-3D2A7C3920C0",
            "https://easylist.to/easylist/easyprivacy.txt",
            "EasyPrivacy",
            langs0(),
            "https://easylist.to/",
            "",
            "",
            "",
        ),
        entry(
            "200392E7-9A0F-40DF-86EB-6AF7E4071322",
            "https://raw.githubusercontent.com/uBlockOrigin/uAssets/master/filters/unbreak.txt",
            "uBlock Unbreak",
            langs0(),
            "https://github.com/gorhill/uBlock",
            "",
            "",
            "",
        ),
        entry(
            "2FBEB0BC-E2E1-4170-BAA9-05E76AAB5BA5",
            "https://raw.githubusercontent.com/brave/adblock-lists/master/brave-unbreak.txt",
            "Brave Unblock",
            langs0(),
            "https://github.com/brave/adblock-lists",
            "",
            "",
            "",
        ),
        entry(
            "BCDF774A-7845-4121-B7EB-77EB66CEDF84",
            "https://raw.githubusercontent.com/brave/adblock-lists/master/coin-miners.txt",
            "NoCoin Filter List",
            langs0(),
            "https://github.com/brave/adblock-lists",
            "",
            "",
            "",
        ),
    ];
    proof {
        assert(lists_view(r@) =~= default_lists_view());
    }
    r
}

} // verus!
