use js_gui_rs::commands::{
    arc_command, chart_command, clear_command, fill_style_command, image_command, line_command,
    popup_command, rect_command, text_command, Chart, Dataset, FillStyle, Image, ImageCrop,
    ImageResize, ImageType,
};

#[test]
fn rect_command_text() {
    assert_eq!(rect_command(1, -2, 30, 40), "{\"type\":\"rec\",\"x\":1,\"y\":-2,\"w\":30,\"h\":40}");
}

#[test]
fn line_command_text() {
    assert_eq!(
        line_command(0, 1, -5, 2147483647),
        "{\"type\":\"line\",\"x1\":0,\"y1\":1,\"x2\":-5,\"y2\":2147483647}"
    );
}

#[test]
fn arc_command_text() {
    assert_eq!(
        arc_command(10, 20, 5, "0", "3.14"),
        "{\"type\":\"arc\",\"x\":10,\"y\":20,\"r\":5,\"s\":0,\"e\":3.14}"
    );
}

#[test]
fn text_command_text() {
    assert_eq!(
        text_command(100, 100, "Hello world!", "30px Arial"),
        "{\"type\":\"text\",\"x\":100,\"y\":100,\"text\":\"Hello world!\",\"font\":\"30px Arial\"}"
    );
}

#[test]
fn small_commands_text() {
    assert_eq!(fill_style_command("red"), "{\"type\":\"color\",\"color\":\"red\"}");
    assert_eq!(clear_command(), "{\"type\":\"clear\"}");
    assert_eq!(popup_command("hi"), "{\"type\":\"alert\",\"text\":\"hi\"}");
}

#[test]
fn image_command_text() {
    let plain = Image { type_: ImageType::Static, source: String::from("a.png"), x: 1, y: 2, resize: None };
    assert_eq!(image_command(&plain), "{\"type\":\"img\",\"src\":\"a.png\",\"x\":1,\"y\":2}");
    let resized = Image {
        type_: ImageType::Static,
        source: String::from("b.png"),
        x: -3,
        y: 4,
        resize: Some(ImageResize { w: 5, h: 6, crop: None }),
    };
    assert_eq!(
        image_command(&resized),
        "{\"type\":\"img\",\"src\":\"b.png\",\"x\":-3,\"y\":4,\"w\":5,\"h\":6,\"resize\":true}"
    );
    let cropped = Image {
        type_: ImageType::Static,
        source: String::from("c.png"),
        x: 0,
        y: 0,
        resize: Some(ImageResize { w: 5, h: 6, crop: Some(ImageCrop { sx: 1, sy: 2, sw: 3, sh: 4 }) }),
    };
    assert_eq!(
        image_command(&cropped),
        "{\"type\":\"img\",\"src\":\"c.png\",\"x\":0,\"y\":0,\"w\":5,\"h\":6,\"resize\":true,\"sx\":1,\"sy\":2,\"sw\":3,\"sh\":4,\"crop\":true}"
    );
}

#[test]
fn chart_command_text() {
    let chart = Chart {
        type_: String::from("line"),
        labels: vec!["Jan", "Feb"],
        datasets: vec![
            Dataset {
                label: String::from("A"),
                data: vec![1, 2],
                fill: FillStyle::False,
                line_tension: String::from("0.1"),
                border_color: String::from("red"),
                background_color: None,
            },
            Dataset {
                label: String::from("B"),
                data: vec![3],
                fill: FillStyle::Origin,
                line_tension: String::from("0"),
                border_color: String::from("blue"),
                background_color: Some(String::from("white")),
            },
        ],
    };
    assert_eq!(
        chart_command(&chart),
        "{\"type\":\"chart\",\"data\":{\"type\":\"line\",\"data\":{\"labels\":[Jan,Feb],\"datasets\":[{\"label\":\"A\",\"data\":[1,2],\"fill\":\"false\",\"borderColor\":\"red\",\"lineTension\":0.1},{\"label\":\"B\",\"data\":[3],\"fill\":\"origin\",\"borderColor\":\"blue\",\"backgroundColor\":\"white\",\"lineTension\":0}]},\"options\":{}}}"
    );
}

#[test]
fn chart_without_datasets() {
    let chart: Chart<u32, u32> = Chart { type_: String::from("bar"), labels: vec![], datasets: vec![] };
    assert_eq!(
        chart_command(&chart),
        "{\"type\":\"chart\",\"data\":{\"type\":\"bar\",\"data\":{\"labels\":[],\"datasets\":[]},\"options\":{}}}"
    );
}

#[test]
fn fill_words() {
    for (fill, word) in [(FillStyle::Start, "start"), (FillStyle::End, "end")] {
        let chart = Chart {
            type_: String::from("line"),
            labels: vec![1u8],
            datasets: vec![Dataset {
                label: String::from("A"),
                data: vec![1u8],
                fill,
                line_tension: String::from("1"),
                border_color: String::from("c"),
                background_color: None,
            }],
        };
        let text = chart_command(&chart);
        assert!(text.contains(&format!("\"fill\":\"{}\"", word)));
    }
}
