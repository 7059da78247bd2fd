use rspack_queue::chunk_filename::create_dynamic_chunk_content_map;
use rspack_queue::chunk_filename::dynamic_path_data;
use rspack_queue::chunk_filename::full_hash_expression;
use rspack_queue::chunk_filename::static_url_lines;
use rspack_queue::chunk_filename::truncate_hash;
use rspack_queue::chunk_filename::ChunkFilenameInfo;
use rspack_queue::chunk_filename::GetChunkFilenameRuntimeModule;
use rspack_queue::chunk_filename::HashLengths;
use rspack_queue::chunk_filename::SourceType;

fn s(x: &str) -> String {
    x.to_string()
}

fn chunk(ukey: u32, id: &str, js: &str) -> ChunkFilenameInfo {
    ChunkFilenameInfo {
        ukey,
        id: Some(s(id)),
        name: None,
        rendered_hash: None,
        content_hash: None,
        has_css: false,
        js_filename_template: s(js),
        css_filename_template: s("[name].css"),
    }
}

fn js_module() -> GetChunkFilenameRuntimeModule {
    GetChunkFilenameRuntimeModule::new("javascript", SourceType::JavaScript, "__webpack_require__.u", false)
}

#[test]
fn new_module_is_named_after_content_type() {
    let mut m = GetChunkFilenameRuntimeModule::new("css", SourceType::Css, "__webpack_require__.k", true);
    assert_eq!(m.name(), "webpack/runtime/get_chunk_filename/css");
    assert!(!m.cacheable());
    assert_eq!(m.source_type(), SourceType::Css);
    assert!(m.all_chunks());
    assert!(!js_module().all_chunks());
    assert_eq!(m.attached_chunk(), None);
    m.attach(4);
    assert_eq!(m.attached_chunk(), Some(4));
}

#[test]
fn template_with_most_chunks_is_dynamic() {
    let chunks = vec![chunk(1, "1", "[id].[contenthash].js"), chunk(2, "2", "[name].js"), chunk(3, "3", "[name].js")];
    let plan = js_module().plan(&chunks);
    assert_eq!(plan.groups.len(), 2);
    assert_eq!(plan.groups[0].template, "[id].[contenthash].js");
    assert_eq!(plan.groups[0].chunks, vec![0]);
    assert_eq!(plan.groups[1].template, "[name].js");
    assert_eq!(plan.groups[1].chunks, vec![1, 2]);
    assert_eq!(plan.dynamic_filename.as_deref(), Some("[name].js"));
}

#[test]
fn tie_on_size_goes_to_longer_template_in_any_order() {
    let a = vec![chunk(1, "1", "a.js"), chunk(2, "2", "bbbb.js")];
    let b = vec![chunk(2, "2", "bbbb.js"), chunk(1, "1", "a.js")];
    assert_eq!(js_module().plan(&a).dynamic_filename.as_deref(), Some("bbbb.js"));
    assert_eq!(js_module().plan(&b).dynamic_filename.as_deref(), Some("bbbb.js"));
}

#[test]
fn tie_on_size_and_length_goes_to_later_template_in_any_order() {
    let a = vec![chunk(1, "1", "a.js"), chunk(2, "2", "b.js")];
    let b = vec![chunk(2, "2", "b.js"), chunk(1, "1", "a.js")];
    assert_eq!(js_module().plan(&a).dynamic_filename.as_deref(), Some("b.js"));
    assert_eq!(js_module().plan(&b).dynamic_filename.as_deref(), Some("b.js"));
}

#[test]
fn css_module_leaves_out_chunks_without_css() {
    let m = GetChunkFilenameRuntimeModule::new("css", SourceType::Css, "__webpack_require__.k", false);
    let mut with_css = chunk(1, "1", "x.js");
    with_css.has_css = true;
    let chunks = vec![chunk(2, "2", "y.js"), with_css];
    let plan = m.plan(&chunks);
    assert_eq!(plan.groups.len(), 1);
    assert_eq!(plan.groups[0].template, "[name].css");
    assert_eq!(plan.groups[0].chunks, vec![1]);
    assert_eq!(plan.dynamic_filename.as_deref(), Some("[name].css"));
    let none = m.plan(&vec![chunk(2, "2", "y.js")]);
    assert!(none.groups.is_empty());
    assert!(none.dynamic_filename.is_none());
}

fn pair(id: Option<&str>, value: Option<&str>) -> (Option<String>, Option<String>) {
    (id.map(s), value.map(s))
}

#[test]
fn content_map_without_entries_is_the_chunk_id() {
    assert_eq!(create_dynamic_chunk_content_map(&vec![]), "\" + chunkId + \"");
    assert_eq!(
        create_dynamic_chunk_content_map(&vec![pair(None, Some("x")), pair(Some("1"), None)]),
        "\" + chunkId + \""
    );
}

#[test]
fn content_map_with_one_entry_is_its_value() {
    assert_eq!(
        create_dynamic_chunk_content_map(&vec![pair(Some("1"), Some("main"))]),
        "\" + \"main\" + \""
    );
    assert_eq!(
        create_dynamic_chunk_content_map(&vec![pair(Some("1"), Some("1")), pair(Some("2"), Some("b"))]),
        "\" + (chunkId === \"2\" ? \"b\" : chunkId)` + \""
    );
}

#[test]
fn content_map_with_entries_is_an_object_in_key_order() {
    assert_eq!(
        create_dynamic_chunk_content_map(&vec![pair(Some("9"), Some("a")), pair(Some("10"), Some("b"))]),
        "\" + {\"10\": \"b\",\"9\": \"a\",}[chunkId] + \""
    );
    assert_eq!(
        create_dynamic_chunk_content_map(&vec![
            pair(Some("9"), Some("a")),
            pair(Some("3"), Some("3")),
            pair(Some("10"), Some("b"))
        ]),
        "\" + ({\"10\": \"b\",\"9\": \"a\",}[chunkId] || chunkId) + \""
    );
}

#[test]
fn content_map_writes_values_as_json() {
    assert_eq!(
        create_dynamic_chunk_content_map(&vec![pair(Some("1"), Some("a\"b\\c\n\u{1}"))]),
        "\" + \"a\\\"b\\\\c\\n\\u0001\" + \""
    );
}

#[test]
fn hashes_are_cut_to_byte_lengths() {
    assert_eq!(truncate_hash(&s("abcdef"), Some(3)), "abc");
    assert_eq!(truncate_hash(&s("abcdef"), None), "abcdef");
    assert_eq!(truncate_hash(&s("\u{e9}a"), Some(2)), "\u{e9}");
}

#[test]
fn full_hash_expression_prefers_fullhash_length() {
    let none = HashLengths { chunkhash: None, contenthash: None, fullhash: None, hash: None };
    assert_eq!(full_hash_expression(&none), "\" + __webpack_require__.h() + \"");
    let both = HashLengths { fullhash: Some(8), hash: Some(4), ..none };
    assert_eq!(full_hash_expression(&both), "\" + __webpack_require__.h().slice(0, 8) + \"");
    let hash = HashLengths { hash: Some(12), ..none };
    assert_eq!(full_hash_expression(&hash), "\" + __webpack_require__.h().slice(0, 12) + \"");
}

#[test]
fn dynamic_path_data_maps_names_and_cut_hashes() {
    let mut c0 = chunk(1, "1", "[name].js");
    c0.name = Some(s("main"));
    c0.rendered_hash = Some(s("abcdef"));
    c0.content_hash = Some(s("123456"));
    let mut c1 = chunk(2, "2", "[name].js");
    c1.rendered_hash = Some(s("fedcba"));
    let chunks = vec![c0, c1];
    let lengths = HashLengths { chunkhash: Some(3), contenthash: Some(2), fullhash: None, hash: Some(5) };
    let d = dynamic_path_data(&chunks, &vec![0, 1], &lengths);
    assert_eq!(d.chunk_id, "\" + chunkId + \"");
    assert_eq!(d.chunk_name, "\" + (chunkId === \"1\" ? \"main\" : chunkId)` + \"");
    assert_eq!(d.rendered_hash, "\" + {\"1\": \"abc\",\"2\": \"fed\",}[chunkId] + \"");
    assert_eq!(d.content_hash, "\" + \"12\" + \"");
    assert_eq!(d.hash, "\" + __webpack_require__.h().slice(0, 5) + \"");
}

#[test]
fn static_urls_group_chunk_ids_by_path() {
    let entries = vec![(s("a.js"), s("1")), (s("b.js"), s("2")), (s("a.js"), s("3"))];
    assert_eq!(
        static_url_lines(&entries),
        "if ({ \"1\":1,\"3\":1 }[chunkId]) return \"a.js\";\nif (chunkId === \"2\") return \"b.js\";"
    );
    assert_eq!(static_url_lines(&vec![]), "");
}

#[test]
fn rendered_code_without_dynamic_path_uses_content_type() {
    let code = js_module().render(&vec![], None);
    assert_eq!(
        code,
        "// This function allow to reference chunks\n        __webpack_require__.u = function (chunkId) {\n          // return url for filenames not based on template\n          \n          // return url for filenames based on template\n          return '' + chunkId + '.javascript';\n        };\n      "
    );
}

#[test]
fn rendered_code_quotes_dynamic_path() {
    let code = js_module().render(&vec![(s("x.js"), s("7"))], Some(s("js/\" + chunkId + \".js")));
    assert_eq!(
        code,
        "// This function allow to reference chunks\n        __webpack_require__.u = function (chunkId) {\n          // return url for filenames not based on template\n          if (chunkId === \"7\") return \"x.js\";\n          // return url for filenames based on template\n          return \"js/\" + chunkId + \".js\";\n        };\n      "
    );
}

#[test]
fn planned_code_has_no_chunks_rendered_one_by_one() {
    let m = js_module();
    let chunks = vec![chunk(1, "a", "[id].js"), chunk(2, "b", "[id].js")];
    let plan = m.plan(&chunks);
    assert_eq!(plan.dynamic_filename.as_deref(), Some("[id].js"));
    let code = m.render_plan(&plan, Some(s("\" + chunkId + \".js")));
    assert_eq!(
        code,
        "// This function allow to reference chunks\n        __webpack_require__.u = function (chunkId) {\n          // return url for filenames not based on template\n          \n          // return url for filenames based on template\n          return \"\" + chunkId + \".js\";\n        };\n      "
    );
    let empty = m.plan(&vec![]);
    assert!(empty.dynamic_filename.is_none());
    assert!(m.render_plan(&empty, None).contains("return '' + chunkId + '.javascript';"));
}

#[test]
fn covered_chunks_follow_all_chunks_and_entries() {
    let all = GetChunkFilenameRuntimeModule::new("css", SourceType::Css, "g", true);
    assert_eq!(all.covered_chunks(&vec![3, 1, 3], &vec![9], true, &vec![8]), vec![3, 1]);
    let on_demand = js_module();
    assert_eq!(on_demand.covered_chunks(&vec![3], &vec![5, 6, 5], false, &vec![7]), vec![5, 6]);
    assert_eq!(on_demand.covered_chunks(&vec![3], &vec![5, 6], true, &vec![6, 7]), vec![5, 6, 7]);
}

#[test]
fn content_maps_do_not_depend_on_chunk_order() {
    let orders = [
        vec![pair(Some("9"), Some("a")), pair(Some("3"), Some("3")), pair(Some("10"), Some("b"))],
        vec![pair(Some("10"), Some("b")), pair(Some("9"), Some("a")), pair(Some("3"), Some("3"))],
        vec![pair(Some("3"), Some("3")), pair(Some("10"), Some("b")), pair(Some("9"), Some("a"))],
    ];
    let first = create_dynamic_chunk_content_map(&orders[0]);
    for o in &orders {
        assert_eq!(create_dynamic_chunk_content_map(o), first);
    }
    let single = [
        vec![pair(Some("3"), Some("3")), pair(Some("9"), Some("a"))],
        vec![pair(Some("9"), Some("a")), pair(Some("3"), Some("3"))],
    ];
    assert_eq!(
        create_dynamic_chunk_content_map(&single[0]),
        create_dynamic_chunk_content_map(&single[1])
    );
}

#[test]
fn dynamic_template_does_not_depend_on_chunk_order() {
    let a = vec![chunk(1, "1", "x.js"), chunk(2, "2", "yy.js"), chunk(3, "3", "x.js")];
    let b = vec![chunk(3, "3", "x.js"), chunk(2, "2", "yy.js"), chunk(1, "1", "x.js")];
    assert_eq!(js_module().plan(&a).dynamic_filename.as_deref(), Some("x.js"));
    assert_eq!(js_module().plan(&b).dynamic_filename.as_deref(), Some("x.js"));
}

#[test]
fn plan_path_data_uses_the_chunks_of_the_dynamic_template() {
    let m = js_module();
    let mut a = chunk(1, "a", "[name].[chunkhash].js");
    a.rendered_hash = Some(s("aaaa"));
    let mut b = chunk(2, "b", "other.js");
    b.rendered_hash = Some(s("bbbb"));
    let mut c = chunk(3, "c", "[name].[chunkhash].js");
    c.rendered_hash = Some(s("cccc"));
    let chunks = vec![a, b, c];
    let plan = m.plan(&chunks);
    assert_eq!(plan.dynamic_filename.as_deref(), Some("[name].[chunkhash].js"));
    let lengths = HashLengths { chunkhash: Some(2), contenthash: None, fullhash: None, hash: None };
    assert!(m.dynamic_hashes_can_be_cut(&plan, &chunks, &lengths));
    let data = m.plan_path_data(&plan, &chunks, &lengths).unwrap();
    assert_eq!(data.rendered_hash, "\" + {\"a\": \"aa\",\"c\": \"cc\",}[chunkId] + \"");
    assert_eq!(data.chunk_name, "\" + chunkId + \"");
    let too_long = HashLengths { chunkhash: Some(9), contenthash: None, fullhash: None, hash: None };
    assert!(!m.dynamic_hashes_can_be_cut(&plan, &chunks, &too_long));
    let empty = m.plan(&vec![]);
    assert!(m.dynamic_hashes_can_be_cut(&empty, &vec![], &lengths));
    assert!(m.plan_path_data(&empty, &vec![], &lengths).is_none());
}
