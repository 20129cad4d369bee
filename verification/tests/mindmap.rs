use jesus_twin::mindmap::project_topic;
use jesus_twin::retrieve::Passage;

fn p(id: &str, r: &str, mv: &str) -> Passage {
    Passage {
        id: id.into(),
        ref_: r.into(),
        book_author: String::new(),
        text_original: String::new(),
        text_modern: String::new(),
        context: String::new(),
        location: String::new(),
        occasion: String::new(),
        move_: mv.into(),
        translation: String::new(),
        domains: Vec::new(),
        principles: Vec::new(),
        score_bits: None,
    }
}

#[test]
fn projects_topic_sayings_moves_and_parallels() {
    let passages = vec![p("1", "Mark 12:17", "M02"), p("2", "Luke 20:25", "M02")];
    let d = project_topic("Caesar", &passages);
    assert_eq!(d.nodes.iter().filter(|n| n.kind == "topic").count(), 1);
    assert_eq!(d.nodes.iter().filter(|n| n.kind == "saying").count(), 2);
    assert_eq!(d.nodes.iter().filter(|n| n.kind == "reasoning_move").count(), 1);
    assert_eq!(d.edges.iter().filter(|e| e.relation == "matches").count(), 2);
    assert_eq!(d.edges.iter().filter(|e| e.relation == "uses_move").count(), 2);
    assert_eq!(d.edges.iter().filter(|e| e.relation == "parallels").count(), 1);
}

#[test]
fn unannotated_sayings_have_no_move_layer() {
    let passages = vec![p("1", "Mark 3:1", ""), p("2", "Luke 4:1", "")];
    let d = project_topic("healing", &passages);
    assert_eq!(d.nodes.iter().filter(|n| n.kind == "reasoning_move").count(), 0);
    assert!(d.edges.iter().all(|e| e.relation == "matches"));
}

#[test]
fn moves_come_in_ascending_order_with_ids() {
    let passages = vec![p("1", "A", "M09"), p("2", "B", " "), p("3", "C", "M01"), p("4", "D", "M09")];
    let d = project_topic("t", &passages);
    assert_eq!(d.nodes[0].id, "topic:t");
    assert_eq!(d.nodes[1].id, "saying:1");
    let moves: Vec<&str> = d.nodes.iter().filter(|n| n.kind == "reasoning_move").map(|n| n.id.as_str()).collect();
    assert_eq!(moves, vec!["move:M01", "move:M09"]);
    let parallels: Vec<(&str, &str)> = d
        .edges
        .iter()
        .filter(|e| e.relation == "parallels")
        .map(|e| (e.from.as_str(), e.to.as_str()))
        .collect();
    assert_eq!(parallels, vec![("saying:1", "saying:4")]);
}
