//! What the tools compute from what they fetched: tag lists, changelogs,
//! file trees, search hits, and the payloads they answer with.
use vstd::prelude::*;
use vstd::string::*;
use vstd::utf8::{encode_utf8, is_char_boundary};
use crate::json::{Json, JsonValue, decimal, number_value, push_item, push_member, text_value, view_items};
use crate::registry::ToolKind;
use crate::tags::{sort_tags, tags_ordered, texts};
use crate::text::{chars_of, find_char, index_of, lemma_index_of_bounds, slice_text, strip_prefix_all, trim_start_text};

verus! {

/// A line without the `\r` of a `\r\n` ending.
pub open spec fn strip_cr(l: Seq<char>, had_newline: bool) -> Seq<char> {
    if had_newline && l.len() > 0 && l.last() == '\r' {
        l.drop_last()
    } else {
        l
    }
}

/// The lines of `s` from index `i` on: split at `\n`, a `\r` before it
/// dropped, no empty line after a final `\n`.
pub open spec fn lines_from(s: Seq<char>, i: int) -> Seq<Seq<char>>
    decreases s.len() - i,
    via lines_from_decreases
{
    if i < 0 || i >= s.len() {
        Seq::empty()
    } else {
        let e = index_of(s, '\n', i);
        if e >= s.len() {
            seq![s.subrange(i, s.len() as int)]
        } else {
            seq![strip_cr(s.subrange(i, e), true)] + lines_from(s, e + 1)
        }
    }
}

#[via_fn]
proof fn lines_from_decreases(s: Seq<char>, i: int) {
    if 0 <= i < s.len() {
        lemma_index_of_bounds(s, '\n', i);
    }
}

pub open spec fn lines(s: Seq<char>) -> Seq<Seq<char>> {
    lines_from(s, 0)
}

/// The second tab-separated field of a line; empty where there is no tab.
pub open spec fn second_field(l: Seq<char>) -> Seq<char> {
    let t = index_of(l, '\t', 0);
    if t >= l.len() {
        Seq::empty()
    } else {
        l.subrange(t + 1, index_of(l, '\t', t + 1))
    }
}

/// The tag that a line of `git ls-remote --tags --refs` names.
pub open spec fn tag_of_line(l: Seq<char>) -> Seq<char> {
    strip_prefix_all(second_field(l), "refs/tags/"@)
}

/// The tags that `git ls-remote --tags --refs` output names, line by line.
pub open spec fn ref_tags(out: Seq<char>) -> Seq<Seq<char>> {
    lines(out).map_values(|l: Seq<char>| tag_of_line(l))
}

fn line_tag(line: &str) -> (r: String)
    ensures
        r@ == tag_of_line(line@),
{
    let cs = chars_of(line);
    let t = find_char(&cs, '\t', 0);
    if t >= cs.len() {
        return String::new();
    }
    let e = find_char(&cs, '\t', t + 1);
    trim_start_text(line, &cs, t + 1, e, "refs/tags/")
}

/// The tag names in `git ls-remote --tags --refs` output, in output order.
pub fn tag_names(output: &str) -> (r: Vec<String>)
    ensures
        texts(r@) == ref_tags(output@),
{
    let cs = chars_of(output);
    let n = cs.len();
    let ghost s = output@;
    let mut out: Vec<String> = Vec::new();
    let mut i: usize = 0;
    assert(texts(out@) + lines_from(s, 0).map_values(|l: Seq<char>| tag_of_line(l)) =~= ref_tags(s));
    while i < n
        invariant
            n == s.len(),
            s == output@,
            cs@ == s,
            0 <= i <= n,
            texts(out@) + lines_from(s, i as int).map_values(|l: Seq<char>| tag_of_line(l)) == ref_tags(s),
        decreases n - i,
    {
        let e = find_char(&cs, '\n', i);
        let end = if e < n && e > i && cs[e - 1] == '\r' {
            e - 1
        } else {
            e
        };
        assert(i <= end && end <= e && e <= n);
        assert(n == output@.len());
        let line = slice_text(output, i, end);
        let tag = line_tag(line.as_str());
        let ghost l = s.subrange(i as int, e as int);
        proof {
            if e < n {
                assert(line@ =~= strip_cr(l, true));
            } else {
                assert(line@ =~= s.subrange(i as int, s.len() as int));
            }
        }
        let ghost prev = out@;
        out.push(tag);
        let next = if e < n { e + 1 } else { n };
        proof {
            let rest = lines_from(s, i as int);
            assert(rest[0] == line@);
            assert(rest =~= seq![line@] + lines_from(s, next as int));
            assert(texts(out@) =~= texts(prev).push(tag@));
            assert(rest.map_values(|l: Seq<char>| tag_of_line(l)) =~= seq![tag@] + lines_from(s, next as int).map_values(|l: Seq<char>| tag_of_line(l)));
            assert(texts(out@) + lines_from(s, next as int).map_values(|l: Seq<char>| tag_of_line(l)) =~= texts(prev) + rest.map_values(|l: Seq<char>| tag_of_line(l)));
        }
        i = next;
    }
    assert(lines_from(s, i as int).map_values(|l: Seq<char>| tag_of_line(l)) =~= Seq::<Seq<char>>::empty());
    assert(texts(out@) =~= ref_tags(s));
    out
}

/// At most `limit` tags from the front of `ts`; all of them where no limit is set.
pub open spec fn limited(ts: Seq<Seq<char>>, limit: Option<nat>) -> Seq<Seq<char>> {
    match limit {
        Some(n) => if n < ts.len() {
            ts.take(n as int)
        } else {
            ts
        },
        None => ts,
    }
}

pub open spec fn opt_nat(o: Option<u64>) -> Option<nat> {
    match o {
        Some(n) => Some(n as nat),
        None => None,
    }
}

/// A JSON array of strings.
pub open spec fn text_array(ts: Seq<Seq<char>>) -> Json {
    Json::Array(ts.map_values(|t: Seq<char>| Json::Str(t)))
}

/// The payload of `get_tags`.
pub open spec fn tags_json(link: Seq<char>, limit: Option<nat>, ts: Seq<Seq<char>>) -> Json {
    Json::Object(
        seq![
            ("repository"@, Json::Str(link)),
            ("count"@, Json::Number(decimal(ts.len()))),
            ("limit_applied"@, match limit {
                Some(n) => Json::Number(decimal(n)),
                None => Json::Null,
            }),
            ("tags"@, text_array(ts)),
        ],
    )
}

fn text_array_value(v: &Vec<String>) -> (r: JsonValue)
    ensures
        r@ == text_array(texts(v@)),
{
    let mut items: Vec<JsonValue> = Vec::new();
    let mut i: usize = 0;
    while i < v.len()
        invariant
            0 <= i <= v@.len(),
            view_items(items@) == texts(v@).take(i as int).map_values(|t: Seq<char>| Json::Str(t)),
        decreases v@.len() - i,
    {
        push_item(&mut items, text_value(v[i].as_str()));
        assert(texts(v@).take(i + 1).map_values(|t: Seq<char>| Json::Str(t)) =~= texts(v@).take(
            i as int,
        ).map_values(|t: Seq<char>| Json::Str(t)).push(Json::Str(v@[i as int]@)));
        i = i + 1;
    }
    assert(texts(v@).take(i as int) =~= texts(v@));
    let r = JsonValue::Array(items);
    assert(r@->Array_0 =~= text_array(texts(v@))->Array_0);
    r
}

/// Keeps at most `limit` tags from the front.
pub fn apply_limit(tags: Vec<String>, limit: Option<u64>) -> (r: Vec<String>)
    ensures
        texts(r@) == limited(texts(tags@), opt_nat(limit)),
{
    let ghost before = tags@;
    let mut tags = tags;
    match limit {
        Some(n) => {
            if (n as u128) < (tags.len() as u128) {
                tags.truncate(n as usize);
                assert(texts(tags@) =~= texts(before).take(n as int));
            }
        },
        None => {},
    }
    tags
}

/// The payload of `get_tags`.
pub fn tags_payload(link: &str, limit: Option<u64>, tags: &Vec<String>) -> (r: JsonValue)
    ensures
        r@ == tags_json(link@, opt_nat(limit), texts(tags@)),
{
    let mut fields: Vec<(String, JsonValue)> = Vec::new();
    push_member(&mut fields, "repository", text_value(link));
    push_member(&mut fields, "count", number_value(tags.len() as u64));
    let applied = match limit {
        Some(n) => number_value(n),
        None => JsonValue::Null,
    };
    push_member(&mut fields, "limit_applied", applied);
    push_member(&mut fields, "tags", text_array_value(tags));
    let r = JsonValue::Object(fields);
    assert(r@->Object_0 =~= tags_json(link@, opt_nat(limit), texts(tags@))->Object_0);
    r
}

/// What `get_tags` answers, from the output of `git ls-remote --tags --refs`:
/// the tags in version order, at most `limit` of them.
pub fn tags_result(link: &str, limit: Option<u64>, ls_remote_output: &str) -> (r: JsonValue)
    ensures
        exists|ordered: Seq<Seq<char>>|
            {
                &&& ordered.to_multiset() == ref_tags(ls_remote_output@).to_multiset()
                &&& tags_ordered(ordered)
                &&& r@ == tags_json(link@, opt_nat(limit), limited(ordered, opt_nat(limit)))
            },
{
    let names = tag_names(ls_remote_output);
    let sorted = sort_tags(names);
    let ghost ordered = texts(sorted@);
    let kept = apply_limit(sorted, limit);
    tags_payload(link, limit, &kept)
}

/// The model of an optional borrowed value; absence reads as null.
pub open spec fn seen(o: Option<&JsonValue>) -> Json {
    match o {
        Some(v) => v@,
        None => Json::Null,
    }
}

/// The text of a string value; anything else reads as empty.
pub open spec fn text_or_empty(j: Json) -> Seq<char> {
    match j.str_of() {
        Some(s) => s,
        None => Seq::empty(),
    }
}

fn lookup<'a>(v: Option<&'a JsonValue>, key: &str) -> (r: Option<&'a JsonValue>)
    ensures
        seen(r) == seen(v).at(key@),
{
    match v {
        Some(x) => x.get(key),
        None => None,
    }
}

fn text_of(v: Option<&JsonValue>) -> (r: String)
    ensures
        r@ == text_or_empty(seen(v)),
{
    match v {
        Some(x) => match x.as_str() {
            Some(s) => s.to_owned(),
            None => String::new(),
        },
        None => String::new(),
    }
}

/// The first line of `s`.
pub open spec fn first_line(s: Seq<char>) -> Seq<char> {
    let e = index_of(s, '\n', 0);
    if e >= s.len() {
        s
    } else {
        strip_cr(s.subrange(0, e), true)
    }
}

/// The text before the first `T` (the date of an ISO 8601 timestamp).
pub open spec fn date_part(s: Seq<char>) -> Seq<char> {
    s.subrange(0, index_of(s, 'T', 0))
}

/// One changelog line: `[date] first line of the commit message`.
pub open spec fn commit_summary(c: Json) -> Seq<char> {
    "["@ + date_part(text_or_empty(c.at("commit"@).at("author"@).at("date"@))) + "] "@ + first_line(
        text_or_empty(c.at("commit"@).at("message"@)),
    )
}

/// The payload of `get_changelog`.
pub open spec fn changelog_json(link: Seq<char>, from: Seq<char>, to: Seq<char>, changes: Seq<Seq<char>>) -> Json {
    Json::Object(
        seq![
            ("repository"@, Json::Str(link)),
            ("from"@, Json::Str(from)),
            ("to"@, Json::Str(to)),
            ("changes"@, text_array(changes)),
        ],
    )
}

fn summarize_commit(c: &JsonValue) -> (r: String)
    ensures
        r@ == commit_summary(c@),
{
    let commit = lookup(Some(c), "commit");
    let date = text_of(lookup(lookup(commit, "author"), "date"));
    let message = text_of(lookup(commit, "message"));
    let dc = chars_of(date.as_str());
    let t = find_char(&dc, 'T', 0);
    let mc = chars_of(message.as_str());
    let e = find_char(&mc, '\n', 0);
    let end = if e < mc.len() && e > 0 && mc[e - 1] == '\r' {
        e - 1
    } else {
        e
    };
    let first = slice_text(message.as_str(), 0, end);
    proof {
        if e < mc@.len() {
            assert(first@ =~= first_line(message@));
        } else {
            assert(first@ =~= message@);
        }
    }
    let mut r = "[".to_owned();
    r.append(slice_text(date.as_str(), 0, t).as_str());
    r.append("] ");
    r.append(first.as_str());
    r
}

fn summaries(items: &Vec<JsonValue>) -> (r: Vec<String>)
    ensures
        texts(r@) == items@.map_values(|c: JsonValue| commit_summary(c@)),
{
    let mut out: Vec<String> = Vec::new();
    let mut i: usize = 0;
    while i < items.len()
        invariant
            0 <= i <= items@.len(),
            texts(out@) == items@.take(i as int).map_values(|c: JsonValue| commit_summary(c@)),
        decreases items@.len() - i,
    {
        let ghost prev = out@;
        let line = summarize_commit(&items[i]);
        out.push(line);
        assert(texts(out@) =~= texts(prev).push(line@));
        assert(items@.take(i + 1).map_values(|c: JsonValue| commit_summary(c@)) =~= items@.take(
            i as int,
        ).map_values(|c: JsonValue| commit_summary(c@)).push(commit_summary(items@[i as int]@)));
        i = i + 1;
    }
    assert(items@.take(i as int) =~= items@);
    out
}

/// The model of the commits in a compare response, where it lists them.
pub open spec fn commits_of(response: Json) -> Option<Seq<Json>> {
    match response.at("commits"@) {
        Json::Array(cs) => Some(cs),
        _ => None,
    }
}

/// What `get_changelog` answers, from the compare response: one line per
/// commit; an error where the response lists no commits.
pub fn changelog_result(link: &str, from: &str, to: &str, response: &JsonValue) -> (r: Result<JsonValue, String>)
    ensures
        match commits_of(response@) {
            Some(cs) => r matches Ok(v) && v@ == changelog_json(
                link@,
                from@,
                to@,
                cs.map_values(|c: Json| commit_summary(c)),
            ),
            None => r matches Err(e) && e@ == "No commits found"@,
        },
{
    match lookup(Some(response), "commits") {
        Some(JsonValue::Array(items)) => {
            let lines = summaries(items);
            proof {
                crate::json::lemma_view_items(items@);
                assert(items@.map_values(|c: JsonValue| commit_summary(c@)) =~= commits_of(
                    response@,
                )->0.map_values(|c: Json| commit_summary(c)));
            }
            let mut fields: Vec<(String, JsonValue)> = Vec::new();
            push_member(&mut fields, "repository", text_value(link));
            push_member(&mut fields, "from", text_value(from));
            push_member(&mut fields, "to", text_value(to));
            push_member(&mut fields, "changes", text_array_value(&lines));
            let v = JsonValue::Object(fields);
            assert(v@->Object_0 =~= changelog_json(link@, from@, to@, texts(lines@))->Object_0);
            Ok(v)
        },
        _ => Err("No commits found".to_owned()),
    }
}

/// Where a file tree is cut, and what marks the cut.
pub const TREE_LIMIT: usize = 1000;
pub const TRUNCATED_MARK: &'static str = "... [TRUNCATED]";

/// How a tree entry is listed: its path, with `/` after a directory.
pub open spec fn tree_entry(item: Json) -> Seq<char> {
    let p = text_or_empty(item.at("path"@));
    if text_or_empty(item.at("type"@)) == "tree"@ {
        p + "/"@
    } else {
        p
    }
}

/// The listing of a tree: its entries, cut after `TREE_LIMIT` with a mark.
pub open spec fn tree_listing(items: Seq<Json>) -> Seq<Seq<char>> {
    let all = items.map_values(|i: Json| tree_entry(i));
    if all.len() > TREE_LIMIT {
        all.take(TREE_LIMIT as int).push(TRUNCATED_MARK@)
    } else {
        all
    }
}

/// The payload of `get_file_tree`.
pub open spec fn tree_json(link: Seq<char>, git_ref: Seq<char>, files: Seq<Seq<char>>) -> Json {
    Json::Object(
        seq![("repository"@, Json::Str(link)), ("ref"@, Json::Str(git_ref)), ("files"@, text_array(files))],
    )
}

fn list_entry(item: &JsonValue) -> (r: String)
    ensures
        r@ == tree_entry(item@),
{
    let mut p = text_of(lookup(Some(item), "path"));
    let t = text_of(lookup(Some(item), "type"));
    if t == "tree".to_owned() {
        p.append("/");
    }
    p
}

/// What `get_file_tree` answers, from the tree response; an error where the
/// response holds no tree.
pub fn file_tree_result(link: &str, git_ref: &str, response: &JsonValue) -> (r: Result<JsonValue, String>)
    ensures
        match response@.at("tree"@) {
            Json::Array(items) => r matches Ok(v) && v@ == tree_json(link@, git_ref@, tree_listing(items)),
            _ => r matches Err(e) && e@ == "Invalid tree response"@,
        },
{
    match lookup(Some(response), "tree") {
        Some(JsonValue::Array(items)) => {
            let ghost models = response@.at("tree"@)->Array_0;
            proof {
                crate::json::lemma_view_items(items@);
            }
            let mut files: Vec<String> = Vec::new();
            let mut i: usize = 0;
            while i < items.len()
                invariant
                    0 <= i <= items@.len(),
                    models.len() == items@.len(),
                    forall|k: int| 0 <= k < items@.len() ==> #[trigger] models[k] == items@[k]@,
                    texts(files@) == models.take(i as int).map_values(|it: Json| tree_entry(it)),
                decreases items@.len() - i,
            {
                let ghost prev = files@;
                let e = list_entry(&items[i]);
                files.push(e);
                assert(texts(files@) =~= texts(prev).push(e@));
                assert(models.take(i + 1).map_values(|it: Json| tree_entry(it)) =~= models.take(
                    i as int,
                ).map_values(|it: Json| tree_entry(it)).push(tree_entry(models[i as int])));
                i = i + 1;
            }
            assert(models.take(i as int) =~= models);
            let ghost all = texts(files@);
            if files.len() > TREE_LIMIT {
                files.truncate(TREE_LIMIT);
                files.push(TRUNCATED_MARK.to_owned());
                assert(texts(files@) =~= all.take(TREE_LIMIT as int).push(TRUNCATED_MARK@));
            }
            let mut fields: Vec<(String, JsonValue)> = Vec::new();
            push_member(&mut fields, "repository", text_value(link));
            push_member(&mut fields, "ref", text_value(git_ref));
            push_member(&mut fields, "files", text_array_value(&files));
            let v = JsonValue::Object(fields);
            assert(v@->Object_0 =~= tree_json(link@, git_ref@, tree_listing(models))->Object_0);
            Ok(v)
        },
        _ => Err("Invalid tree response".to_owned()),
    }
}

/// One search hit: its path (`unknown` where missing) and its page URL.
pub open spec fn search_hit(item: Json) -> Json {
    Json::Object(
        seq![
            ("path"@, Json::Str(match item.at("path"@).str_of() {
                Some(p) => p,
                None => "unknown"@,
            })),
            ("url"@, Json::Str(text_or_empty(item.at("html_url"@)))),
        ],
    )
}

/// The payload of `search_repository`.
pub open spec fn search_json(link: Seq<char>, query: Seq<char>, hits: Seq<Json>) -> Json {
    Json::Object(
        seq![
            ("repository"@, Json::Str(link)),
            ("query"@, Json::Str(query)),
            ("count_found"@, Json::Number(decimal(hits.len()))),
            ("results"@, Json::Array(hits)),
        ],
    )
}

fn hit_value(item: &JsonValue) -> (r: JsonValue)
    ensures
        r@ == search_hit(item@),
{
    let path = match lookup(Some(item), "path") {
        Some(v) => match v.as_str() {
            Some(p) => p.to_owned(),
            None => "unknown".to_owned(),
        },
        None => "unknown".to_owned(),
    };
    let url = text_of(lookup(Some(item), "html_url"));
    let mut fields: Vec<(String, JsonValue)> = Vec::new();
    push_member(&mut fields, "path", JsonValue::Str(path));
    push_member(&mut fields, "url", JsonValue::Str(url));
    let r = JsonValue::Object(fields);
    assert(r@->Object_0 =~= search_hit(item@)->Object_0);
    r
}

/// What `search_repository` answers, from the search response; an error
/// where the response lists no items.
pub fn search_result(link: &str, query: &str, response: &JsonValue) -> (r: Result<JsonValue, String>)
    ensures
        match response@.at("items"@) {
            Json::Array(items) => r matches Ok(v) && v@ == search_json(
                link@,
                query@,
                items.map_values(|i: Json| search_hit(i)),
            ),
            _ => r matches Err(e) && e@ == "No items found in search response"@,
        },
{
    match lookup(Some(response), "items") {
        Some(JsonValue::Array(items)) => {
            let ghost models = response@.at("items"@)->Array_0;
            proof {
                crate::json::lemma_view_items(items@);
            }
            let mut hits: Vec<JsonValue> = Vec::new();
            let mut i: usize = 0;
            while i < items.len()
                invariant
                    0 <= i <= items@.len(),
                    models.len() == items@.len(),
                    forall|k: int| 0 <= k < items@.len() ==> #[trigger] models[k] == items@[k]@,
                    view_items(hits@) == models.take(i as int).map_values(|it: Json| search_hit(it)),
                    hits@.len() == i,
                decreases items@.len() - i,
            {
                push_item(&mut hits, hit_value(&items[i]));
                assert(models.take(i + 1).map_values(|it: Json| search_hit(it)) =~= models.take(
                    i as int,
                ).map_values(|it: Json| search_hit(it)).push(search_hit(models[i as int])));
                i = i + 1;
            }
            assert(models.take(i as int) =~= models);
            let mut fields: Vec<(String, JsonValue)> = Vec::new();
            push_member(&mut fields, "repository", text_value(link));
            push_member(&mut fields, "query", text_value(query));
            push_member(&mut fields, "count_found", number_value(hits.len() as u64));
            push_member(&mut fields, "results", JsonValue::Array(hits));
            let v = JsonValue::Object(fields);
            assert(v@->Object_0 =~= search_json(link@, query@, models.map_values(|it: Json| search_hit(it)))->Object_0);
            Ok(v)
        },
        _ => Err("No items found in search response".to_owned()),
    }
}

/// How many bytes of a README, and of a file, a tool hands back.
pub const README_LIMIT: usize = 20000;
pub const CONTENT_LIMIT: usize = 30000;
pub const CONTENT_TRUNCATED_MARK: &'static str = "... \n[TRUNCATED]";

/// The last character boundary of `bytes` at or before `k`.
pub open spec fn last_boundary(bytes: Seq<u8>, k: int) -> int
    decreases k,
{
    if k <= 0 {
        0
    } else if is_char_boundary(bytes, k) {
        k
    } else {
        last_boundary(bytes, k - 1)
    }
}

/// Whether `s` takes more than `max` bytes.
pub open spec fn over_limit(s: Seq<char>, max: int) -> bool {
    encode_utf8(s).len() > max
}

/// What stays of `s` when it is cut to at most `max` bytes, at a character boundary.
pub open spec fn is_cut_of(p: Seq<char>, s: Seq<char>, max: int) -> bool {
    encode_utf8(p) == encode_utf8(s).take(last_boundary(encode_utf8(s), max))
}

/// `content` cut to at most `max` bytes, where it is longer; the cut falls
/// on the last character boundary at or before `max`.
pub fn cut_text(content: &str, max: usize) -> (r: Option<String>)
    ensures
        !over_limit(content@, max as int) ==> r is None,
        over_limit(content@, max as int) ==> (r matches Some(p) && is_cut_of(p@, content@, max as int)),
{
    broadcast use vstd::utf8::encode_utf8_valid_utf8, vstd::utf8::is_char_boundary_start_end_of_seq;
    if content.as_bytes().len() <= max {
        return None;
    }
    let ghost bytes = content.spec_bytes();
    let mut mid = max;
    while mid > 0 && !content.is_char_boundary(mid)
        invariant
            bytes == content.spec_bytes(),
            mid <= max,
            last_boundary(bytes, max as int) == last_boundary(bytes, mid as int),
        decreases mid,
    {
        mid = mid - 1;
    }
    assert(is_char_boundary(bytes, 0));
    let (head, _) = content.split_at(mid);
    let r = head.to_owned();
    assert(encode_utf8(r@) == head.spec_bytes());
    Some(r)
}

/// The payload of `get_readme`.
pub open spec fn readme_json(link: Seq<char>, content: Seq<char>) -> Json {
    Json::Object(
        seq![
            ("repository"@, Json::Str(link)),
            ("type"@, Json::Str("readme"@)),
            ("content"@, Json::Str(content)),
        ],
    )
}

/// What `get_readme` answers, from the README text: the text, cut after
/// `README_LIMIT` bytes with a mark.
pub fn readme_result(link: &str, content: &str) -> (r: JsonValue)
    ensures
        !over_limit(content@, README_LIMIT as int) ==> r@ == readme_json(link@, content@),
        over_limit(content@, README_LIMIT as int) ==> exists|p: Seq<char>|
            is_cut_of(p, content@, README_LIMIT as int) && r@ == readme_json(link@, p + TRUNCATED_MARK@),
{
    let shown = match cut_text(content, README_LIMIT) {
        Some(mut p) => {
            p.append(TRUNCATED_MARK);
            p
        },
        None => content.to_owned(),
    };
    let mut fields: Vec<(String, JsonValue)> = Vec::new();
    push_member(&mut fields, "repository", text_value(link));
    push_member(&mut fields, "type", text_value("readme"));
    let ghost sv = shown@;
    push_member(&mut fields, "content", JsonValue::Str(shown));
    let r = JsonValue::Object(fields);
    assert(r@->Object_0 =~= readme_json(link@, sv)->Object_0);
    r
}

/// The payload of `get_file_content`.
pub open spec fn content_json(
    link: Seq<char>,
    path: Seq<char>,
    git_ref: Seq<char>,
    truncated: bool,
    content: Seq<char>,
) -> Json {
    Json::Object(
        seq![
            ("repository"@, Json::Str(link)),
            ("path"@, Json::Str(path)),
            ("ref"@, Json::Str(git_ref)),
            ("is_truncated"@, Json::Bool(truncated)),
            ("content"@, Json::Str(content)),
        ],
    )
}

/// What `get_file_content` answers, from the file's text: the text, cut
/// after `CONTENT_LIMIT` bytes with a mark, and whether it was cut.
pub fn content_result(link: &str, path: &str, git_ref: &str, content: &str) -> (r: JsonValue)
    ensures
        !over_limit(content@, CONTENT_LIMIT as int) ==> r@ == content_json(link@, path@, git_ref@, false, content@),
        over_limit(content@, CONTENT_LIMIT as int) ==> exists|p: Seq<char>|
            is_cut_of(p, content@, CONTENT_LIMIT as int) && r@ == content_json(
                link@,
                path@,
                git_ref@,
                true,
                p + CONTENT_TRUNCATED_MARK@,
            ),
{
    let (shown, truncated) = match cut_text(content, CONTENT_LIMIT) {
        Some(mut p) => {
            p.append(CONTENT_TRUNCATED_MARK);
            (p, true)
        },
        None => (content.to_owned(), false),
    };
    let mut fields: Vec<(String, JsonValue)> = Vec::new();
    push_member(&mut fields, "repository", text_value(link));
    push_member(&mut fields, "path", text_value(path));
    push_member(&mut fields, "ref", text_value(git_ref));
    push_member(&mut fields, "is_truncated", JsonValue::Bool(truncated));
    let ghost sv = shown@;
    push_member(&mut fields, "content", JsonValue::Str(shown));
    let r = JsonValue::Object(fields);
    assert(r@->Object_0 =~= content_json(link@, path@, git_ref@, truncated, sv)->Object_0);
    r
}

/// The failure text of a tool whose request the server refused with `status`.
pub open spec fn http_failure_text(kind: ToolKind, status: Seq<char>) -> Seq<char> {
    match kind {
        ToolKind::GetChangelog => "API Error: "@ + status,
        ToolKind::GetFileContent => "Gagal membaca file: "@ + status,
        ToolKind::SearchRepository => "Search API Error: "@ + status
            + " (Search requires Auth & Valid Repo)"@,
        _ => "Error: "@ + status,
    }
}

/// The failure text of a tool whose request the server refused with `status`.
pub fn http_failure(kind: ToolKind, status: &str) -> (r: String)
    ensures
        r@ == http_failure_text(kind, status@),
{
    match kind {
        ToolKind::GetChangelog => {
            let mut t = "API Error: ".to_owned();
            t.append(status);
            t
        },
        ToolKind::GetFileContent => {
            let mut t = "Gagal membaca file: ".to_owned();
            t.append(status);
            t
        },
        ToolKind::SearchRepository => {
            let mut t = "Search API Error: ".to_owned();
            t.append(status);
            t.append(" (Search requires Auth & Valid Repo)");
            t
        },
        _ => {
            let mut t = "Error: ".to_owned();
            t.append(status);
            t
        },
    }
}

} // verus!
