use exeviewer::disasm::{compose_line, Token, TokenKind};
use iced_x86::{
    Decoder, DecoderOptions, Formatter, FormatterOutput, FormatterTextKind, Instruction,
    IntelFormatter,
};

struct CollectOut {
    v: Vec<(String, FormatterTextKind)>,
}

impl FormatterOutput for CollectOut {
    fn write(&mut self, text: &str, kind: FormatterTextKind) {
        self.v.push((text.to_string(), kind));
    }
}

fn kind_of(k: FormatterTextKind) -> TokenKind {
    match k {
        FormatterTextKind::Directive => TokenKind::Directive,
        FormatterTextKind::Keyword => TokenKind::Keyword,
        FormatterTextKind::Prefix => TokenKind::Prefix,
        FormatterTextKind::Mnemonic => TokenKind::Mnemonic,
        FormatterTextKind::Register => TokenKind::Register,
        FormatterTextKind::Number => TokenKind::Number,
        FormatterTextKind::Punctuation => TokenKind::Punctuation,
        _ => TokenKind::Other,
    }
}

#[test]
fn formatter_tokens_concatenate_to_the_instruction_text() {
    // mov rbp,rsp; xor eax,eax; ret
    let code: [u8; 6] = [0x48, 0x89, 0xE5, 0x31, 0xC0, 0xC3];
    let mut decoder = Decoder::with_ip(64, &code, 0x1000, DecoderOptions::NONE);
    let mut instruction = Instruction::default();
    let mut count = 0;
    while decoder.can_decode() {
        decoder.decode_out(&mut instruction);
        let mut tokens = CollectOut { v: Vec::new() };
        let mut formatter = IntelFormatter::new();
        formatter.format(&instruction, &mut tokens);
        let mut plain = String::new();
        let mut formatter2 = IntelFormatter::new();
        formatter2.format(&instruction, &mut plain);
        let joined: String = tokens.v.iter().map(|(t, _)| t.as_str()).collect();
        assert_eq!(joined, plain);
        count += 1;
    }
    assert_eq!(count, 3);
}

#[test]
fn composed_lines_keep_the_formatter_tokens() {
    let code: [u8; 3] = [0x48, 0x89, 0xE5];
    let mut decoder = Decoder::with_ip(64, &code, 0x2000, DecoderOptions::NONE);
    let mut instruction = Instruction::default();
    decoder.decode_out(&mut instruction);
    let mut tokens = CollectOut { v: Vec::new() };
    let mut formatter = IntelFormatter::new();
    formatter.format(&instruction, &mut tokens);
    let mut plain = String::new();
    let mut formatter2 = IntelFormatter::new();
    formatter2.format(&instruction, &mut plain);
    let lib_tokens: Vec<Token> = tokens
        .v
        .into_iter()
        .map(|(text, kind)| Token { text, kind: kind_of(kind) })
        .collect();
    let line = compose_line(instruction.ip(), lib_tokens);
    let joined: String = line.tokens.iter().map(|t| t.text.as_str()).collect();
    assert_eq!(joined, format!("    {:016X}    {}", 0x2000, plain));
}
