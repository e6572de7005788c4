use vstd::prelude::*;

verus! {

/// Labels that identify the server.
pub open spec fn spec_server_label_names() -> Seq<Seq<char>> {
    seq!["server_type"@, "server"@, "server_id"@]
}

/// Labels that identify a library of the server.
pub open spec fn spec_library_label_names() -> Seq<Seq<char>> {
    spec_server_label_names() + seq!["library_type"@, "library"@, "library_id"@]
}

/// Labels that describe one playback session.
pub open spec fn spec_play_label_names() -> Seq<Seq<char>> {
    spec_library_label_names() + seq![
        "media_type"@,
        "title"@,
        "child_title"@,
        "grandchild_title"@,
        "stream_type"@,
        "stream_resolution"@,
        "stream_file_resolution"@,
        "stream_bitrate"@,
        "device"@,
        "device_type"@,
        "user"@,
        "session"@,
    ]
}

/// The play labels plus the playback state.
pub open spec fn spec_active_session_label_names() -> Seq<Seq<char>> {
    spec_play_label_names().push("state"@)
}

/// The server labels plus what describes the server's software.
pub open spec fn spec_server_info_label_names() -> Seq<Seq<char>> {
    spec_server_label_names() + seq!["version"@, "platform"@, "platform_version"@]
}

pub open spec fn names_view(v: Seq<&'static str>) -> Seq<Seq<char>> {
    v.map_values(|s: &'static str| s@)
}

pub fn server_labels() -> (r: Vec<&'static str>)
    ensures
        names_view(r@) == spec_server_label_names(),
{
    let r = vec!["server_type", "server", "server_id"];
    assert(names_view(r@) =~= spec_server_label_names());
    r
}

pub fn library_labels() -> (r: Vec<&'static str>)
    ensures
        names_view(r@) == spec_library_label_names(),
{
    let mut r = server_labels();
    r.push("library_type");
    r.push("library");
    r.push("library_id");
    assert(names_view(r@) =~= spec_library_label_names());
    r
}

pub fn play_labels() -> (r: Vec<&'static str>)
    ensures
        names_view(r@) == spec_play_label_names(),
{
    let mut r = library_labels();
    r.push("media_type");
    r.push("title");
    r.push("child_title");
    r.push("grandchild_title");
    r.push("stream_type");
    r.push("stream_resolution");
    r.push("stream_file_resolution");
    r.push("stream_bitrate");
    r.push("device");
    r.push("device_type");
    r.push("user");
    r.push("session");
    assert(names_view(r@) =~= spec_play_label_names());
    r
}

/// `PLAY_LABELS` plus a `state` label, used for metrics that describe the
/// current playback state of a session rather than an accumulated total.
pub fn active_session_labels() -> (r: Vec<&'static str>)
    ensures
        names_view(r@) == spec_active_session_label_names(),
{
    let mut labels = play_labels();
    labels.push("state");
    assert(names_view(labels@) =~= spec_active_session_label_names());
    labels
}

pub fn server_info_labels() -> (r: Vec<&'static str>)
    ensures
        names_view(r@) == spec_server_info_label_names(),
{
    let mut labels = server_labels();
    labels.push("version");
    labels.push("platform");
    labels.push("platform_version");
    assert(names_view(labels@) =~= spec_server_info_label_names());
    labels
}

proof fn lemma_distinct_by_prefix(names: Seq<Seq<char>>)
    requires
        forall|i: int| 0 <= i < names.len() ==> #[trigger] names[i].len() >= 2,
        forall|i: int, j: int|
            0 <= i < j < names.len() ==> #[trigger] names[i].len() != #[trigger] names[j].len()
                || names[i][0] != names[j][0] || names[i][1] != names[j][1],
    ensures
        names.no_duplicates(),
{
    assert forall|i: int, j: int| 0 <= i < names.len() && 0 <= j < names.len() && i != j implies names[i] != names[j] by {
        if i < j {
            assert(names[i].len() != names[j].len() || names[i][0] != names[j][0] || names[i][1] != names[j][1]);
        } else {
            assert(names[j].len() != names[i].len() || names[j][0] != names[i][0] || names[j][1] != names[i][1]);
        }
    }
}

/// No label name occurs twice in any of the label sets.
pub proof fn lemma_label_names_distinct()
    ensures
        spec_server_label_names().no_duplicates(),
        spec_library_label_names().no_duplicates(),
        spec_play_label_names().no_duplicates(),
        spec_active_session_label_names().no_duplicates(),
        spec_server_info_label_names().no_duplicates(),
{
    reveal_strlit("server_type");
    reveal_strlit("server");
    reveal_strlit("server_id");
    reveal_strlit("library_type");
    reveal_strlit("library");
    reveal_strlit("library_id");
    reveal_strlit("media_type");
    reveal_strlit("title");
    reveal_strlit("child_title");
    reveal_strlit("grandchild_title");
    reveal_strlit("stream_type");
    reveal_strlit("stream_resolution");
    reveal_strlit("stream_file_resolution");
    reveal_strlit("stream_bitrate");
    reveal_strlit("device");
    reveal_strlit("device_type");
    reveal_strlit("user");
    reveal_strlit("session");
    reveal_strlit("state");
    reveal_strlit("version");
    reveal_strlit("platform");
    reveal_strlit("platform_version");
    // Any two of the names differ in their length or in one of their first
    // two characters.
    lemma_distinct_by_prefix(spec_server_label_names());
    lemma_distinct_by_prefix(spec_library_label_names());
    lemma_distinct_by_prefix(spec_play_label_names());
    lemma_distinct_by_prefix(spec_active_session_label_names());
    lemma_distinct_by_prefix(spec_server_info_label_names());
}

} // verus!
