//! What a launchd agent's property list says to whoever reads it.
use vstd::prelude::*;
use vstd::string::*;

use crate::autostart::{
    escaped_xml, escaped_xml_reads_back, plist, xml_read, FLAG, PLIST_ARGUMENTS, PLIST_ASSOCIATED,
    PLIST_HEAD, PLIST_NEXT, PLIST_TAIL,
};
use crate::markup::{doc_of, lemma_doc_of_both, lemma_tags_of_doc, separate, tags};

verus! {

spec fn head_tags() -> Seq<Seq<char>> {
    seq![
        "?xml version=\"1.0\" encoding=\"UTF-8\"?>\n"@,
        "!DOCTYPE plist PUBLIC \"-//Apple//DTD PLIST 1.0//EN\" \"http://www.apple.com/DTDs/PropertyList-1.0.dtd\">\n"@,
        "plist version=\"1.0\">\n"@,
        "dict>\n\t"@,
        "key>Label"@,
        "/key>\n\t"@,
    ]
}

spec fn associated_tags() -> Seq<Seq<char>> {
    seq![
        "/string>\n\t"@,
        "key>AssociatedBundleIdentifiers"@,
        "/key>\n\t"@,
        "array>\n\t\t"@,
    ]
}

spec fn argument_tags() -> Seq<Seq<char>> {
    seq![
        "/string>\n\t"@,
        "/array>\n\t"@,
        "key>ProgramArguments"@,
        "/key>\n\t"@,
        "array>\n\t\t"@,
    ]
}

spec fn tail_tags() -> Seq<Seq<char>> {
    seq![
        "/string>\n\t"@,
        "/array>\n\t"@,
        "key>RunAtLoad"@,
        "/key>\n\t"@,
        "true/>\n"@,
        "/dict>\n"@,
        "/plist>\n"@,
    ]
}

/// The tag of a text, with the text.
pub open spec fn text_tag(value: Seq<char>) -> Seq<char> {
    "string>"@ + value
}

proof fn lemma_doc_push(front: Seq<Seq<char>>, tag: Seq<char>)
    ensures
        doc_of(front.push(tag)) == doc_of(front).push('<') + tag,
{
    assert(front.push(tag).drop_last() =~= front);
}

#[verifier::rlimit(40)]
proof fn lemma_head()
    ensures
        doc_of(head_tags()) + "<string>"@ == PLIST_HEAD@,
        separate(head_tags()),
{
    reveal_strlit("<string>");
    reveal_strlit(
        "<?xml version=\"1.0\" encoding=\"UTF-8\"?>\n<!DOCTYPE plist PUBLIC \"-//Apple//DTD PLIST 1.0//EN\" \"http://www.apple.com/DTDs/PropertyList-1.0.dtd\">\n<plist version=\"1.0\">\n<dict>\n\t<key>Label</key>\n\t<string>",
    );
    reveal_strlit("?xml version=\"1.0\" encoding=\"UTF-8\"?>\n");
    reveal_strlit(
        "!DOCTYPE plist PUBLIC \"-//Apple//DTD PLIST 1.0//EN\" \"http://www.apple.com/DTDs/PropertyList-1.0.dtd\">\n",
    );
    reveal_strlit("plist version=\"1.0\">\n");
    reveal_strlit("dict>\n\t");
    reveal_strlit("key>Label");
    reveal_strlit("/key>\n\t");
    let t = head_tags();
    let t1 = seq![t[0]];
    let t2 = t1.push(t[1]);
    let t3 = t2.push(t[2]);
    let t4 = t3.push(t[3]);
    let t5 = t4.push(t[4]);
    assert(t =~= t5.push(t[5]));
    let none = Seq::<Seq<char>>::empty();
    assert(t1 =~= none.push(t[0]));
    assert(doc_of(none) =~= Seq::<char>::empty());
    lemma_doc_push(none, t[0]);
    lemma_doc_push(t1, t[1]);
    lemma_doc_push(t2, t[2]);
    lemma_doc_push(t3, t[3]);
    lemma_doc_push(t4, t[4]);
    lemma_doc_push(t5, t[5]);
    assert(doc_of(t) + "<string>"@ =~= PLIST_HEAD@);
}

#[verifier::rlimit(40)]
proof fn lemma_associated()
    ensures
        doc_of(associated_tags()) + "<string>"@ == PLIST_ASSOCIATED@,
        separate(associated_tags()),
{
    reveal_strlit("<string>");
    reveal_strlit(
        "</string>\n\t<key>AssociatedBundleIdentifiers</key>\n\t<array>\n\t\t<string>",
    );
    reveal_strlit("/string>\n\t");
    reveal_strlit("key>AssociatedBundleIdentifiers");
    reveal_strlit("/key>\n\t");
    reveal_strlit("array>\n\t\t");
    let t = associated_tags();
    let none = Seq::<Seq<char>>::empty();
    let t1 = none.push(t[0]);
    let t2 = t1.push(t[1]);
    let t3 = t2.push(t[2]);
    assert(t =~= t3.push(t[3]));
    assert(doc_of(none) =~= Seq::<char>::empty());
    lemma_doc_push(none, t[0]);
    lemma_doc_push(t1, t[1]);
    lemma_doc_push(t2, t[2]);
    lemma_doc_push(t3, t[3]);
    assert(doc_of(t) + "<string>"@ =~= PLIST_ASSOCIATED@);
}

#[verifier::rlimit(40)]
proof fn lemma_arguments()
    ensures
        doc_of(argument_tags()) + "<string>"@ == PLIST_ARGUMENTS@,
        separate(argument_tags()),
        "<"@ + "/string>\n\t\t"@ + "<string>"@ == PLIST_NEXT@,
        !"/string>\n\t\t"@.contains('<'),
{
    reveal_strlit("<");
    reveal_strlit("<string>");
    reveal_strlit("/string>\n\t\t");
    reveal_strlit("</string>\n\t\t<string>");
    reveal_strlit("</string>\n\t</array>\n\t<key>ProgramArguments</key>\n\t<array>\n\t\t<string>");
    reveal_strlit("/string>\n\t");
    reveal_strlit("/array>\n\t");
    reveal_strlit("key>ProgramArguments");
    reveal_strlit("/key>\n\t");
    reveal_strlit("array>\n\t\t");
    let t = argument_tags();
    let none = Seq::<Seq<char>>::empty();
    let t1 = none.push(t[0]);
    let t2 = t1.push(t[1]);
    let t3 = t2.push(t[2]);
    let t4 = t3.push(t[3]);
    assert(t =~= t4.push(t[4]));
    assert(doc_of(none) =~= Seq::<char>::empty());
    lemma_doc_push(none, t[0]);
    lemma_doc_push(t1, t[1]);
    lemma_doc_push(t2, t[2]);
    lemma_doc_push(t3, t[3]);
    lemma_doc_push(t4, t[4]);
    assert(doc_of(t) + "<string>"@ =~= PLIST_ARGUMENTS@);
    assert("<"@ + "/string>\n\t\t"@ + "<string>"@ =~= PLIST_NEXT@);
}

#[verifier::rlimit(40)]
proof fn lemma_tail()
    ensures
        doc_of(tail_tags()) == PLIST_TAIL@,
        separate(tail_tags()),
{
    reveal_strlit(
        "</string>\n\t</array>\n\t<key>RunAtLoad</key>\n\t<true/>\n</dict>\n</plist>\n",
    );
    reveal_strlit("/string>\n\t");
    reveal_strlit("/array>\n\t");
    reveal_strlit("key>RunAtLoad");
    reveal_strlit("/key>\n\t");
    reveal_strlit("true/>\n");
    reveal_strlit("/dict>\n");
    reveal_strlit("/plist>\n");
    let t = tail_tags();
    let none = Seq::<Seq<char>>::empty();
    let t1 = none.push(t[0]);
    let t2 = t1.push(t[1]);
    let t3 = t2.push(t[2]);
    let t4 = t3.push(t[3]);
    let t5 = t4.push(t[4]);
    let t6 = t5.push(t[5]);
    assert(t =~= t6.push(t[6]));
    assert(doc_of(none) =~= Seq::<char>::empty());
    lemma_doc_push(none, t[0]);
    lemma_doc_push(t1, t[1]);
    lemma_doc_push(t2, t[2]);
    lemma_doc_push(t3, t[3]);
    lemma_doc_push(t4, t[4]);
    lemma_doc_push(t5, t[5]);
    lemma_doc_push(t6, t[6]);
    assert(doc_of(t) =~= PLIST_TAIL@);
}

proof fn lemma_text_tag(front: Seq<char>, value: Seq<char>)
    requires
        !value.contains('<'),
    ensures
        front.push('<') + text_tag(value) == front + "<string>"@ + value,
        !text_tag(value).contains('<'),
{
    reveal_strlit("<string>");
    reveal_strlit("string>");
    assert(front.push('<') + text_tag(value) =~= front + "<string>"@ + value);
    let t = text_tag(value);
    assert forall|i: int| 0 <= i < t.len() implies t[i] != '<' by {
        if i >= 7 {
            assert(t[i] == value[i - 7]);
            assert(value.contains(value[i - 7]));
        }
    }
}

/// The tags of an agent's property list, in order.
#[verifier::rlimit(40)]
proof fn lemma_agent_tags(id: Seq<char>, path: Seq<char>)
    requires
        !id.contains('<'),
        !path.contains('<'),
    ensures
        tags(plist(id, path)) == head_tags() + seq![text_tag(id)] + associated_tags() + seq![
            text_tag(id),
        ] + argument_tags() + seq![
            text_tag(path),
            "/string>\n\t\t"@,
            text_tag("--autostart"@),
        ] + tail_tags(),
{
    reveal_strlit("--autostart");
    reveal_strlit("<");
    let a = head_tags();
    let b = a.push(text_tag(id));
    let c = b + associated_tags();
    let d = c.push(text_tag(id));
    let e = d + argument_tags();
    let f = e.push(text_tag(path));
    let g = f.push("/string>\n\t\t"@);
    let h = g.push(text_tag(FLAG@));
    let all = h + tail_tags();
    lemma_head();
    lemma_associated();
    lemma_arguments();
    lemma_tail();
    lemma_text_tag(doc_of(a), id);
    lemma_doc_push(a, text_tag(id));
    lemma_doc_of_both(b, associated_tags());
    lemma_text_tag(doc_of(c), id);
    lemma_doc_push(c, text_tag(id));
    lemma_doc_of_both(d, argument_tags());
    lemma_text_tag(doc_of(e), path);
    lemma_doc_push(e, text_tag(path));
    lemma_doc_push(f, "/string>\n\t\t"@);
    lemma_text_tag(doc_of(g), FLAG@);
    lemma_doc_push(g, text_tag(FLAG@));
    lemma_doc_of_both(h, tail_tags());
    assert(doc_of(b) =~= PLIST_HEAD@ + id);
    assert(doc_of(c) + "<string>"@ =~= doc_of(b) + (doc_of(associated_tags()) + "<string>"@));
    assert(doc_of(d) =~= PLIST_HEAD@ + id + PLIST_ASSOCIATED@ + id);
    assert(doc_of(e) + "<string>"@ =~= doc_of(d) + (doc_of(argument_tags()) + "<string>"@));
    assert(doc_of(f) =~= PLIST_HEAD@ + id + PLIST_ASSOCIATED@ + id + PLIST_ARGUMENTS@ + path);
    assert(doc_of(g) + "<string>"@ =~= doc_of(f) + ("<"@ + "/string>\n\t\t"@ + "<string>"@));
    assert(doc_of(h) =~= PLIST_HEAD@ + id + PLIST_ASSOCIATED@ + id + PLIST_ARGUMENTS@ + path
        + PLIST_NEXT@ + FLAG@);
    assert(doc_of(all) =~= plist(id, path));
    assert(separate(b));
    assert(separate(c));
    assert(separate(d));
    assert(separate(e));
    assert(separate(f));
    assert(separate(g));
    assert(separate(h));
    assert(separate(all));
    lemma_tags_of_doc(all);
    assert(all =~= head_tags() + seq![text_tag(id)] + associated_tags() + seq![text_tag(id)]
        + argument_tags() + seq![text_tag(path), "/string>\n\t\t"@, text_tag("--autostart"@)]
        + tail_tags());
}

/// What launchd reads in an agent: its label is the application's identifier, it is attributed
/// to that application, what it runs is the executable with the flag and nothing else, and it is
/// run when it is loaded. Each is read back as it was put in.
pub proof fn agent_runs_the_executable(bundle_id: Seq<char>, exe: Seq<char>)
    ensures
        ({
            let read = tags(plist(escaped_xml(bundle_id), escaped_xml(exe)));
            &&& read.len() == 27
            &&& read[4] == "key>Label"@
            &&& read[6] == text_tag(escaped_xml(bundle_id))
            &&& read[8] == "key>AssociatedBundleIdentifiers"@
            &&& read[10] == "array>\n\t\t"@
            &&& read[11] == text_tag(escaped_xml(bundle_id))
            &&& read[14] == "key>ProgramArguments"@
            &&& read[16] == "array>\n\t\t"@
            &&& read[17] == text_tag(escaped_xml(exe))
            &&& read[19] == text_tag("--autostart"@)
            &&& read[21] == "/array>\n\t"@
            &&& read[22] == "key>RunAtLoad"@
            &&& read[24] == "true/>\n"@
            &&& xml_read(escaped_xml(bundle_id)) == bundle_id
            &&& xml_read(escaped_xml(exe)) == exe
        }),
{
    escaped_xml_reads_back(bundle_id);
    escaped_xml_reads_back(exe);
    lemma_agent_tags(escaped_xml(bundle_id), escaped_xml(exe));
}

} // verus!
