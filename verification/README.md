# vrclipboard-ime

A clipboard-driven Japanese input helper for a VR chat client. Text copied
to the clipboard is split into blocks, each block is converted (romaji to
kanji, hiragana, katakana, a calculator, or left as it is) and the result is
put back on the clipboard or sent to the chatbox over OSC. Copying a result
again cycles through the input method's candidates.

- `src/` is the verified library (Verus): settings, the choice of converter,
  splitting and joining of blocks, the reconversion state machine, and the
  decisions taken when the clipboard changes.
- `app/` is the Windows program around it: settings file, COM access to the
  Microsoft IME and the text services framework, the clipboard listener and
  the UDP socket.
- `tests/` runs the library on concrete inputs.
