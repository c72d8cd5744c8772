//! The compact filter list used where memory is short.

use vstd::prelude::*;

use super::{entry, langs0, lists_view, FilterList, FilterListView};

verus! {

/// The fields of the compact filter list.
pub open spec fn slim_list_view() -> Seq<FilterListView> {
    seq![
        FilterListView {
            uuid: "c8200634-c017-4f33-a0bb-5d6bd4854333"@,
            url: "https://adblock-data.s3.amazonaws.com/ios/latest.txt"@,
            title: "Brave SlimList"@,
            langs: seq![],
            support_url: "https://brave.com/"@,
            component_id: ""@,
            base64_public_key: ""@,
            desc: ""@,
        },
    ]
}

/// The compact filter list.
pub fn slim_list() -> (r: Vec<FilterList>)
    ensures
        lists_view(r@) == slim_list_view(),
{
    let r = vec![
        entry(
            "c8200634-c017-4f33-a0bb-5d6bd4854333",
            "https://adblock-data.s3.amazonaws.com/ios/latest.txt",
            "Brave SlimList",
            langs0(),
            "https://brave.com/",
            "",
            "",
            "",
        ),
    ];
    proof {
        assert(lists_view(r@) =~= slim_list_view());
    }
    r
}

} // verus!
